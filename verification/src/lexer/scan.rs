//! The scanners: loops over the bytes of a source that compute what the
//! grammar states.

use vstd::prelude::*;
use vstd::slice::{slice_subrange, slice_to_vec};
use crate::lexer::bytes::{
    digit, identifier_start, whitespace, ByteClass, APOSTROPHE, BACKSLASH, NEWLINE, QUOTE, SLASH,
    STAR,
};
use crate::lexer::grammar::{
    block_comment_end, char_kind, lemma_lexeme_at, lemma_quoted_end, lemma_trivia_end, lexeme_at,
    number_kind, operator1, operator2, quoted_end, reserved_word, run_end, spelling, string_kind,
    trivia_end, word_kind,
};
use crate::lexer::token::{LexError, TokenKind};

verus! {

/// Finds where the run of bytes of `class` that begins at `start` ends.
pub(crate) fn scan_run(src: &[u8], start: usize, class: ByteClass) -> (end: usize)
    requires
        start <= src@.len(),
    ensures
        end == run_end(src@, start as int, class),
        start <= end <= src@.len(),
{
    let mut i: usize = start;
    while i < src.len() && class.contains(src[i])
        invariant
            start <= i <= src@.len(),
            run_end(src@, start as int, class) == run_end(src@, i as int, class),
        decreases src@.len() - i,
    {
        i += 1;
    }
    i
}

/// Finds where the block comment whose body begins at `from` ends.
pub(crate) fn scan_block_comment(src: &[u8], from: usize) -> (end: Option<usize>)
    requires
        from <= src@.len(),
    ensures
        end matches Some(e) ==> block_comment_end(src@, from as int) == Some(e as int) && from + 2
            <= e <= src@.len(),
        end is None ==> block_comment_end(src@, from as int) is None,
{
    let mut k: usize = from;
    while k < src.len() && k + 1 < src.len()
        invariant
            from <= k <= src@.len(),
            block_comment_end(src@, from as int) == block_comment_end(src@, k as int),
        decreases src@.len() - k,
    {
        if src[k] == STAR && src[k + 1] == SLASH {
            return Some(k + 2);
        }
        k += 1;
    }
    None
}

/// Skips the whitespace and the comments that begin at `start`.
pub(crate) fn skip_trivia(src: &[u8], start: usize) -> (end: usize)
    requires
        start <= src@.len(),
    ensures
        end == trivia_end(src@, start as int),
        start <= end <= src@.len(),
{
    let mut i: usize = start;
    while i < src.len()
        invariant
            start <= i <= src@.len(),
            trivia_end(src@, start as int) == trivia_end(src@, i as int),
        decreases src@.len() - i,
    {
        let b = src[i];
        if whitespace(b) {
            i += 1;
        } else if b == SLASH && i + 1 < src.len() && src[i + 1] == SLASH {
            i = scan_run(src, i + 2, ByteClass::LineRest);
        } else if b == SLASH && i + 1 < src.len() && src[i + 1] == STAR {
            match scan_block_comment(src, i + 2) {
                Some(end) => {
                    i = end;
                },
                None => {
                    return i;
                },
            }
        } else {
            return i;
        }
    }
    i
}

/// Finds how the quoted literal whose body begins at `from` ends.
pub(crate) fn scan_quoted(src: &[u8], from: usize, quote: u8) -> (r: (bool, usize))
    requires
        from <= src@.len(),
    ensures
        r.0 == quoted_end(src@, from as int, quote).0,
        r.1 == quoted_end(src@, from as int, quote).1,
        from <= r.1 <= src@.len(),
{
    let mut k: usize = from;
    while k < src.len()
        invariant
            from <= k <= src@.len(),
            quoted_end(src@, from as int, quote) == quoted_end(src@, k as int, quote),
        decreases src@.len() - k,
    {
        let b = src[k];
        if b == NEWLINE {
            return (false, k);
        } else if b == quote {
            return (true, k + 1);
        } else if b == BACKSLASH && k + 1 < src.len() && src[k + 1] != NEWLINE {
            k += 2;
        } else {
            k += 1;
        }
    }
    (false, k)
}

/// Whether `text` spells `word`.
pub(crate) fn spells(text: &[u8], word: &str) -> (r: bool)
    ensures
        r == (text@ == spelling(word)),
{
    proof {
        reveal(spelling);
    }
    let bytes = word.as_bytes();
    if bytes.len() != text.len() {
        return false;
    }
    let mut i: usize = 0;
    while i < text.len()
        invariant
            i <= text@.len(),
            bytes@.len() == text@.len(),
            bytes@ == spelling(word),
            forall|j: int| 0 <= j < i ==> text@[j] == bytes@[j],
        decreases text@.len() - i,
    {
        if text[i] != bytes[i] {
            return false;
        }
        i += 1;
    }
    assert(text@ =~= bytes@);
    true
}

/// Looks a word up in the table of reserved words.
pub(crate) fn reserved_word_kind(text: &[u8]) -> (r: Option<TokenKind>)
    ensures
        match r {
            Some(kind) => reserved_word(text@) == Some(kind@),
            None => reserved_word(text@) is None,
        },
{
    if spells(text, "package") {
        Some(TokenKind::Package)
    } else if spells(text, "import") {
        Some(TokenKind::Import)
    } else if spells(text, "class") {
        Some(TokenKind::Class)
    } else if spells(text, "public") {
        Some(TokenKind::Public)
    } else if spells(text, "protected") {
        Some(TokenKind::Protected)
    } else if spells(text, "private") {
        Some(TokenKind::Private)
    } else if spells(text, "static") {
        Some(TokenKind::Static)
    } else if spells(text, "abstract") {
        Some(TokenKind::Abstract)
    } else if spells(text, "final") {
        Some(TokenKind::Final)
    } else if spells(text, "if") {
        Some(TokenKind::If)
    } else if spells(text, "else") {
        Some(TokenKind::Else)
    } else if spells(text, "return") {
        Some(TokenKind::Return)
    } else if spells(text, "byte") {
        Some(TokenKind::Byte)
    } else if spells(text, "short") {
        Some(TokenKind::Short)
    } else if spells(text, "int") {
        Some(TokenKind::Int)
    } else if spells(text, "long") {
        Some(TokenKind::Long)
    } else if spells(text, "char") {
        Some(TokenKind::Char)
    } else if spells(text, "float") {
        Some(TokenKind::Float)
    } else if spells(text, "double") {
        Some(TokenKind::Double)
    } else if spells(text, "boolean") {
        Some(TokenKind::Boolean)
    } else if spells(text, "void") {
        Some(TokenKind::Void)
    } else if spells(text, "true") {
        Some(TokenKind::BooleanLiteral(true))
    } else if spells(text, "false") {
        Some(TokenKind::BooleanLiteral(false))
    } else {
        None
    }
}

/// Tells a reserved word from an identifier.
pub(crate) fn classify_word(text: &[u8]) -> (kind: TokenKind)
    ensures
        kind@ == word_kind(text@),
{
    match reserved_word_kind(text) {
        Some(kind) => kind,
        None => TokenKind::Identifier(slice_to_vec(text)),
    }
}

/// Tells an integer from a float, and both from a malformed number.
pub(crate) fn classify_number(text: &[u8]) -> (kind: TokenKind)
    ensures
        kind@ == number_kind(text@),
{
    let dot = scan_run(text, 0, ByteClass::Digit);
    if dot == text.len() {
        TokenKind::IntLiteral(slice_to_vec(text))
    } else if dot + 1 < text.len() && scan_run(text, dot + 1, ByteClass::Digit) == text.len() {
        TokenKind::FloatLiteral(slice_to_vec(text))
    } else {
        TokenKind::Invalid(slice_to_vec(text), LexError::MalformedNumber)
    }
}

/// Makes the kind of a string lexeme.
pub(crate) fn classify_string(text: &[u8], closed: bool) -> (kind: TokenKind)
    requires
        closed ==> text@.len() >= 2,
    ensures
        kind@ == string_kind(text@, closed),
{
    if closed {
        TokenKind::StringLiteral(slice_to_vec(slice_subrange(text, 1, text.len() - 1)))
    } else {
        TokenKind::Invalid(slice_to_vec(text), LexError::UnterminatedString)
    }
}

/// Makes the kind of a character lexeme.
pub(crate) fn classify_char(text: &[u8], closed: bool) -> (kind: TokenKind)
    requires
        closed ==> text@.len() >= 2,
    ensures
        kind@ == char_kind(text@, closed),
{
    if !closed {
        return TokenKind::Invalid(slice_to_vec(text), LexError::UnterminatedChar);
    }
    let inner = slice_subrange(text, 1, text.len() - 1);
    let one = if inner.len() == 0 {
        false
    } else if inner[0] == BACKSLASH {
        inner.len() == 2
    } else {
        scan_run(inner, 1, ByteClass::Continuation) == inner.len()
    };
    if one {
        TokenKind::CharLiteral(slice_to_vec(inner))
    } else {
        TokenKind::Invalid(slice_to_vec(text), LexError::MalformedChar)
    }
}

/// Looks two bytes up among the operators of two bytes.
pub(crate) fn operator2_kind(a: u8, b: u8) -> (r: Option<TokenKind>)
    ensures
        match r {
            Some(kind) => operator2(a, b) == Some(kind@),
            None => operator2(a, b) is None,
        },
{
    if a == '=' as u8 && b == '=' as u8 {
        Some(TokenKind::Equals)
    } else if a == '!' as u8 && b == '=' as u8 {
        Some(TokenKind::NotEquals)
    } else if a == '<' as u8 && b == '=' as u8 {
        Some(TokenKind::LessEqual)
    } else if a == '>' as u8 && b == '=' as u8 {
        Some(TokenKind::GreaterEqual)
    } else if a == '&' as u8 && b == '&' as u8 {
        Some(TokenKind::And)
    } else if a == '|' as u8 && b == '|' as u8 {
        Some(TokenKind::Or)
    } else {
        None
    }
}

/// Looks a byte up among the punctuation and the operators of one byte.
pub(crate) fn operator1_kind(a: u8) -> (r: Option<TokenKind>)
    ensures
        match r {
            Some(kind) => operator1(a) == Some(kind@),
            None => operator1(a) is None,
        },
{
    if a == '{' as u8 {
        Some(TokenKind::LBrace)
    } else if a == '}' as u8 {
        Some(TokenKind::RBrace)
    } else if a == '(' as u8 {
        Some(TokenKind::LParen)
    } else if a == ')' as u8 {
        Some(TokenKind::RParen)
    } else if a == '[' as u8 {
        Some(TokenKind::LBracket)
    } else if a == ']' as u8 {
        Some(TokenKind::RBracket)
    } else if a == ';' as u8 {
        Some(TokenKind::Semicolon)
    } else if a == ':' as u8 {
        Some(TokenKind::Colon)
    } else if a == ',' as u8 {
        Some(TokenKind::Comma)
    } else if a == '.' as u8 {
        Some(TokenKind::Dot)
    } else if a == '=' as u8 {
        Some(TokenKind::Assign)
    } else if a == '<' as u8 {
        Some(TokenKind::Less)
    } else if a == '>' as u8 {
        Some(TokenKind::Greater)
    } else if a == '+' as u8 {
        Some(TokenKind::Plus)
    } else if a == '-' as u8 {
        Some(TokenKind::Minus)
    } else if a == '*' as u8 {
        Some(TokenKind::Star)
    } else if a == '/' as u8 {
        Some(TokenKind::Slash)
    } else if a == '%' as u8 {
        Some(TokenKind::Percent)
    } else if a == '!' as u8 {
        Some(TokenKind::Not)
    } else {
        None
    }
}

/// Reads the lexeme that begins at `start`, where skipping has stopped inside
/// the source: its kind, and the offset behind it.
pub(crate) fn scan_lexeme(src: &[u8], start: usize) -> (r: (TokenKind, usize))
    requires
        start < src@.len(),
        trivia_end(src@, start as int) == start,
    ensures
        r.0@ == lexeme_at(src@, start as int).0,
        r.1 == lexeme_at(src@, start as int).1,
        start < r.1 <= src@.len(),
{
    proof {
        lemma_lexeme_at(src@, start as int);
        lemma_trivia_end(src@, start as int);
    }
    let first = src[start];
    if identifier_start(first) {
        let end = scan_run(src, start, ByteClass::IdentifierPart);
        (classify_word(slice_subrange(src, start, end)), end)
    } else if digit(first) {
        let end = scan_run(src, start, ByteClass::NumberPart);
        (classify_number(slice_subrange(src, start, end)), end)
    } else if first == QUOTE {
        proof {
            lemma_quoted_end(src@, start + 1, QUOTE);
        }
        let (closed, end) = scan_quoted(src, start + 1, QUOTE);
        (classify_string(slice_subrange(src, start, end), closed), end)
    } else if first == APOSTROPHE {
        proof {
            lemma_quoted_end(src@, start + 1, APOSTROPHE);
        }
        let (closed, end) = scan_quoted(src, start + 1, APOSTROPHE);
        (classify_char(slice_subrange(src, start, end), closed), end)
    } else if first == SLASH && start + 1 < src.len() && src[start + 1] == STAR {
        let end = src.len();
        (
            TokenKind::Invalid(
                slice_to_vec(slice_subrange(src, start, end)),
                LexError::UnterminatedComment,
            ),
            end,
        )
    } else {
        let two = if start + 1 < src.len() {
            operator2_kind(first, src[start + 1])
        } else {
            None
        };
        match two {
            Some(kind) => (kind, start + 2),
            None => match operator1_kind(first) {
                Some(kind) => (kind, start + 1),
                None => {
                    let end = scan_run(src, start + 1, ByteClass::Continuation);
                    (
                        TokenKind::Invalid(
                            slice_to_vec(slice_subrange(src, start, end)),
                            LexError::UnrecognizedCharacter,
                        ),
                        end,
                    )
                },
            },
        }
    }
}

} // verus!
