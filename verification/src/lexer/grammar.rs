//! The lexical grammar, as functions over the bytes of a source.
//!
//! An offset `i` into a source `s` is a number from `0` to `s.len()`. The
//! functions that look for an end are total: given an offset outside that
//! range they return the offset itself, or report that nothing was found.
//!
//! What the grammar leaves out: block comments do not nest, a number has no
//! suffix and no exponent, and escapes are not resolved, so that the text of
//! a literal is what the source holds.

use vstd::prelude::*;
use vstd::string::StringSliceAdditionalSpecFns;
use crate::lexer::bytes::{
    is_digit, is_identifier_start, is_whitespace, ByteClass, APOSTROPHE, BACKSLASH, NEWLINE,
    QUOTE, SLASH, STAR,
};
use crate::lexer::position::{column_at, line_at};
use crate::lexer::token::{KindView, LexError, TokenView};

verus! {

/// Where the longest run of bytes of `class` that begins at `i` ends: the first
/// offset from `i` on that holds no byte of the class.
pub open spec fn run_end(s: Seq<u8>, i: int, class: ByteClass) -> int
    decreases s.len() - i,
{
    if 0 <= i < s.len() && class.has(s[i]) {
        run_end(s, i + 1, class)
    } else {
        i
    }
}

/// A line comment opens at `i`: two slashes.
pub open spec fn opens_line_comment(s: Seq<u8>, i: int) -> bool {
    0 <= i && i + 1 < s.len() && s[i] == SLASH && s[i + 1] == SLASH
}

/// A block comment opens at `i`: a slash and a star.
pub open spec fn opens_block_comment(s: Seq<u8>, i: int) -> bool {
    0 <= i && i + 1 < s.len() && s[i] == SLASH && s[i + 1] == STAR
}

/// The offset behind the first star and slash found at `k` or later: where a
/// block comment whose body begins at `k` ends. Block comments do not nest.
pub open spec fn block_comment_end(s: Seq<u8>, k: int) -> Option<int>
    decreases s.len() - k,
{
    if k < 0 || k + 1 >= s.len() {
        None
    } else if s[k] == STAR && s[k + 1] == SLASH {
        Some(k + 2)
    } else {
        block_comment_end(s, k + 1)
    }
}

/// Where the whitespace and the comments that begin at `i` end: the offset of
/// the next lexeme, or `s.len()`. A block comment that is never closed is not
/// skipped: it is a lexeme, and is reported.
pub open spec fn trivia_end(s: Seq<u8>, i: int) -> int
    decreases s.len() - i,
    via trivia_end_decreases
{
    if i < 0 || i >= s.len() {
        i
    } else if is_whitespace(s[i]) {
        trivia_end(s, i + 1)
    } else if opens_line_comment(s, i) {
        trivia_end(s, run_end(s, i + 2, ByteClass::LineRest))
    } else if opens_block_comment(s, i) {
        match block_comment_end(s, i + 2) {
            Some(end) => trivia_end(s, end),
            None => i,
        }
    } else {
        i
    }
}

#[via_fn]
proof fn trivia_end_decreases(s: Seq<u8>, i: int) {
    if 0 <= i < s.len() && !is_whitespace(s[i]) {
        if opens_line_comment(s, i) {
            lemma_run_end(s, i + 2, ByteClass::LineRest);
        } else if opens_block_comment(s, i) {
            lemma_block_comment_end(s, i + 2);
        }
    }
}

/// How a quoted literal whose body begins at `k` ends, for the quote byte
/// `quote`: whether it is closed, and the offset behind it.
///
/// A literal is closed by the first quote byte that no backslash stands
/// before; it then ends behind that byte. A backslash takes the byte behind it
/// into the body, whatever that byte is. A literal does not run over the end
/// of a line: at a newline, or at the end of the source, it ends unclosed, the
/// newline left outside.
pub open spec fn quoted_end(s: Seq<u8>, k: int, quote: u8) -> (bool, int)
    decreases s.len() - k,
{
    if k < 0 || k >= s.len() {
        (false, k)
    } else if s[k] == NEWLINE {
        (false, k)
    } else if s[k] == quote {
        (true, k + 1)
    } else if s[k] == BACKSLASH && k + 1 < s.len() && s[k + 1] != NEWLINE {
        quoted_end(s, k + 2, quote)
    } else {
        quoted_end(s, k + 1, quote)
    }
}

/// The bytes that spell `word`.
#[verifier::opaque]
pub open spec fn spelling(word: &str) -> Seq<u8> {
    word.spec_bytes()
}

/// The table of reserved words: what a word is, if it is no identifier.
pub open spec fn reserved_word(text: Seq<u8>) -> Option<KindView> {
    if text == spelling("package") {
        Some(KindView::Package)
    } else if text == spelling("import") {
        Some(KindView::Import)
    } else if text == spelling("class") {
        Some(KindView::Class)
    } else if text == spelling("public") {
        Some(KindView::Public)
    } else if text == spelling("protected") {
        Some(KindView::Protected)
    } else if text == spelling("private") {
        Some(KindView::Private)
    } else if text == spelling("static") {
        Some(KindView::Static)
    } else if text == spelling("abstract") {
        Some(KindView::Abstract)
    } else if text == spelling("final") {
        Some(KindView::Final)
    } else if text == spelling("if") {
        Some(KindView::If)
    } else if text == spelling("else") {
        Some(KindView::Else)
    } else if text == spelling("return") {
        Some(KindView::Return)
    } else if text == spelling("byte") {
        Some(KindView::Byte)
    } else if text == spelling("short") {
        Some(KindView::Short)
    } else if text == spelling("int") {
        Some(KindView::Int)
    } else if text == spelling("long") {
        Some(KindView::Long)
    } else if text == spelling("char") {
        Some(KindView::Char)
    } else if text == spelling("float") {
        Some(KindView::Float)
    } else if text == spelling("double") {
        Some(KindView::Double)
    } else if text == spelling("boolean") {
        Some(KindView::Boolean)
    } else if text == spelling("void") {
        Some(KindView::Void)
    } else if text == spelling("true") {
        Some(KindView::BooleanLiteral(true))
    } else if text == spelling("false") {
        Some(KindView::BooleanLiteral(false))
    } else {
        None
    }
}

/// The kind of a word: what the table gives for it, and an identifier if the
/// table does not hold it.
pub open spec fn word_kind(text: Seq<u8>) -> KindView {
    match reserved_word(text) {
        Some(kind) => kind,
        None => KindView::Identifier(text),
    }
}

/// The kind of a run of digits and dots that begins with a digit. Digits alone
/// are an integer; digits, one dot and digits are a float; anything else, such
/// as `1.` or `1.2.3`, is malformed.
pub open spec fn number_kind(text: Seq<u8>) -> KindView {
    let dot = run_end(text, 0, ByteClass::Digit);
    if dot == text.len() {
        KindView::IntLiteral(text)
    } else if dot + 1 < text.len() && run_end(text, dot + 1, ByteClass::Digit) == text.len() {
        KindView::FloatLiteral(text)
    } else {
        KindView::Invalid(text, LexError::MalformedNumber)
    }
}

/// What stands between the quotes of a closed literal.
pub open spec fn body(text: Seq<u8>) -> Seq<u8> {
    text.subrange(1, text.len() - 1)
}

/// The kind of a string lexeme, closed or not.
pub open spec fn string_kind(text: Seq<u8>, closed: bool) -> KindView {
    if closed {
        KindView::StringLiteral(body(text))
    } else {
        KindView::Invalid(text, LexError::UnterminatedString)
    }
}

/// The body of a character literal holds exactly one character: one escape,
/// which is a backslash and a byte, or one character that is no backslash,
/// with the continuation bytes that belong to it.
pub open spec fn is_one_character(body: Seq<u8>) -> bool {
    if body.len() == 0 {
        false
    } else if body[0] == BACKSLASH {
        body.len() == 2
    } else {
        run_end(body, 1, ByteClass::Continuation) == body.len()
    }
}

/// The kind of a character lexeme, closed or not.
pub open spec fn char_kind(text: Seq<u8>, closed: bool) -> KindView {
    if !closed {
        KindView::Invalid(text, LexError::UnterminatedChar)
    } else if is_one_character(body(text)) {
        KindView::CharLiteral(body(text))
    } else {
        KindView::Invalid(text, LexError::MalformedChar)
    }
}

/// The operators of two bytes.
pub open spec fn operator2(a: u8, b: u8) -> Option<KindView> {
    if a == '=' as u8 && b == '=' as u8 {
        Some(KindView::Equals)
    } else if a == '!' as u8 && b == '=' as u8 {
        Some(KindView::NotEquals)
    } else if a == '<' as u8 && b == '=' as u8 {
        Some(KindView::LessEqual)
    } else if a == '>' as u8 && b == '=' as u8 {
        Some(KindView::GreaterEqual)
    } else if a == '&' as u8 && b == '&' as u8 {
        Some(KindView::And)
    } else if a == '|' as u8 && b == '|' as u8 {
        Some(KindView::Or)
    } else {
        None
    }
}

/// The punctuation and the operators of one byte.
pub open spec fn operator1(a: u8) -> Option<KindView> {
    if a == '{' as u8 {
        Some(KindView::LBrace)
    } else if a == '}' as u8 {
        Some(KindView::RBrace)
    } else if a == '(' as u8 {
        Some(KindView::LParen)
    } else if a == ')' as u8 {
        Some(KindView::RParen)
    } else if a == '[' as u8 {
        Some(KindView::LBracket)
    } else if a == ']' as u8 {
        Some(KindView::RBracket)
    } else if a == ';' as u8 {
        Some(KindView::Semicolon)
    } else if a == ':' as u8 {
        Some(KindView::Colon)
    } else if a == ',' as u8 {
        Some(KindView::Comma)
    } else if a == '.' as u8 {
        Some(KindView::Dot)
    } else if a == '=' as u8 {
        Some(KindView::Assign)
    } else if a == '<' as u8 {
        Some(KindView::Less)
    } else if a == '>' as u8 {
        Some(KindView::Greater)
    } else if a == '+' as u8 {
        Some(KindView::Plus)
    } else if a == '-' as u8 {
        Some(KindView::Minus)
    } else if a == '*' as u8 {
        Some(KindView::Star)
    } else if a == '/' as u8 {
        Some(KindView::Slash)
    } else if a == '%' as u8 {
        Some(KindView::Percent)
    } else if a == '!' as u8 {
        Some(KindView::Not)
    } else {
        None
    }
}

/// The lexeme that begins at `i`, an offset inside the source at which no
/// whitespace and no closed comment stands: its kind, and the offset behind
/// it. The rules, the first that applies:
///
/// - a letter or an underscore begins a word, which is the longest run of
///   letters, digits and underscores;
/// - a digit begins a number, which is the longest run of digits and dots;
/// - a quote begins a string, an apostrophe a character literal;
/// - a slash and a star that nothing closes begin an unterminated comment,
///   which takes the rest of the source;
/// - two bytes that form an operator are that operator, and else one byte that
///   is an operator or punctuation is that;
/// - any other byte begins an unrecognized character, which is that byte and
///   the continuation bytes behind it.
pub open spec fn lexeme_at(s: Seq<u8>, i: int) -> (KindView, int) {
    let first = s[i];
    if is_identifier_start(first) {
        let end = run_end(s, i, ByteClass::IdentifierPart);
        (word_kind(s.subrange(i, end)), end)
    } else if is_digit(first) {
        let end = run_end(s, i, ByteClass::NumberPart);
        (number_kind(s.subrange(i, end)), end)
    } else if first == QUOTE {
        let (closed, end) = quoted_end(s, i + 1, QUOTE);
        (string_kind(s.subrange(i, end), closed), end)
    } else if first == APOSTROPHE {
        let (closed, end) = quoted_end(s, i + 1, APOSTROPHE);
        (char_kind(s.subrange(i, end), closed), end)
    } else if opens_block_comment(s, i) && block_comment_end(s, i + 2) is None {
        (
            KindView::Invalid(s.subrange(i, s.len() as int), LexError::UnterminatedComment),
            s.len() as int,
        )
    } else if i + 1 < s.len() && operator2(first, s[i + 1]) is Some {
        (operator2(first, s[i + 1])->0, i + 2)
    } else if operator1(first) is Some {
        (operator1(first)->0, i + 1)
    } else {
        let end = run_end(s, i + 1, ByteClass::Continuation);
        (KindView::Invalid(s.subrange(i, end), LexError::UnrecognizedCharacter), end)
    }
}

/// A lexeme is not empty, and it ends within the source.
pub proof fn lemma_lexeme_at(s: Seq<u8>, i: int)
    requires
        0 <= i < s.len(),
    ensures
        i < lexeme_at(s, i).1 <= s.len(),
        !(lexeme_at(s, i).0 is EndOfInput),
{
    lemma_run_end(s, i, ByteClass::IdentifierPart);
    lemma_run_end(s, i, ByteClass::NumberPart);
    lemma_run_end(s, i + 1, ByteClass::Continuation);
    lemma_quoted_end(s, i + 1, QUOTE);
    lemma_quoted_end(s, i + 1, APOSTROPHE);
}

/// The token whose lexeme begins at `i`.
pub open spec fn token_at(s: Seq<u8>, i: int) -> TokenView {
    TokenView {
        kind: lexeme_at(s, i).0,
        text: s.subrange(i, lexeme_at(s, i).1),
        line: line_at(s, i),
        column: column_at(s, i),
        offset: i,
    }
}

/// The token that marks the end of `s`: it has no text, and it stands behind
/// the last byte.
pub open spec fn end_of_input(s: Seq<u8>) -> TokenView {
    TokenView {
        kind: KindView::EndOfInput,
        text: Seq::empty(),
        line: line_at(s, s.len() as int),
        column: column_at(s, s.len() as int),
        offset: s.len() as int,
    }
}

/// The token that a scan of `s` from offset `i` yields: the token behind the
/// whitespace and the comments at `i`, or the end of input if nothing but
/// those is left.
pub open spec fn token_from(s: Seq<u8>, i: int) -> TokenView {
    let start = trivia_end(s, i);
    if 0 <= start < s.len() {
        token_at(s, start)
    } else {
        end_of_input(s)
    }
}

/// A run is maximal: it lies within the source, it holds bytes of its class
/// only, and the byte behind it, if there is one, is of another class.
pub proof fn lemma_run_end(s: Seq<u8>, i: int, class: ByteClass)
    requires
        0 <= i <= s.len(),
    ensures
        i <= run_end(s, i, class) <= s.len(),
        forall|k: int| i <= k < run_end(s, i, class) ==> class.has(#[trigger] s[k]),
        run_end(s, i, class) < s.len() ==> !class.has(s[run_end(s, i, class)]),
    decreases s.len() - i,
{
    if i < s.len() && class.has(s[i]) {
        lemma_run_end(s, i + 1, class);
    }
}

/// A block comment ends behind the first star and slash in its body, and
/// nowhere if its body holds none.
pub proof fn lemma_block_comment_end(s: Seq<u8>, k: int)
    requires
        0 <= k <= s.len(),
    ensures
        match block_comment_end(s, k) {
            Some(end) => {
                &&& k + 2 <= end <= s.len()
                &&& s[end - 2] == STAR
                &&& s[end - 1] == SLASH
                &&& forall|j: int| k <= j < end - 2 ==> !(#[trigger] s[j] == STAR && s[j + 1] == SLASH)
            },
            None => forall|j: int| k <= j && j + 1 < s.len() ==> !(#[trigger] s[j] == STAR && s[j + 1]
                == SLASH),
        },
    decreases s.len() - k,
{
    if k + 1 < s.len() && !(s[k] == STAR && s[k + 1] == SLASH) {
        lemma_block_comment_end(s, k + 1);
    }
}

/// Skipping moves forward, stays within the source, and stops at the end of
/// the source or at a byte that is no whitespace.
pub proof fn lemma_trivia_end(s: Seq<u8>, i: int)
    requires
        0 <= i <= s.len(),
    ensures
        i <= trivia_end(s, i) <= s.len(),
        trivia_end(s, i) < s.len() ==> !is_whitespace(s[trivia_end(s, i)]),
        trivia_end(s, i) < s.len() ==> !opens_line_comment(s, trivia_end(s, i)),
        trivia_end(s, i) < s.len() && opens_block_comment(s, trivia_end(s, i))
            ==> block_comment_end(s, trivia_end(s, i) + 2) is None,
        trivia_end(s, trivia_end(s, i)) == trivia_end(s, i),
    decreases s.len() - i,
{
    if i < s.len() {
        if is_whitespace(s[i]) {
            lemma_trivia_end(s, i + 1);
        } else if opens_line_comment(s, i) {
            lemma_run_end(s, i + 2, ByteClass::LineRest);
            lemma_trivia_end(s, run_end(s, i + 2, ByteClass::LineRest));
        } else if opens_block_comment(s, i) {
            lemma_block_comment_end(s, i + 2);
            match block_comment_end(s, i + 2) {
                Some(end) => {
                    lemma_trivia_end(s, end);
                },
                None => {},
            }
        }
    }
}

/// A quoted literal ends within the source. Closed, it ends behind its quote
/// byte; unclosed, at a newline or at the end of the source.
pub proof fn lemma_quoted_end(s: Seq<u8>, k: int, quote: u8)
    requires
        0 <= k <= s.len(),
        quote != NEWLINE,
    ensures
        k <= quoted_end(s, k, quote).1 <= s.len(),
        quoted_end(s, k, quote).0 ==> k < quoted_end(s, k, quote).1 && s[quoted_end(s, k, quote).1
            - 1] == quote,
        !quoted_end(s, k, quote).0 ==> quoted_end(s, k, quote).1 == s.len() || s[quoted_end(
            s,
            k,
            quote,
        ).1] == NEWLINE,
        forall|j: int| k <= j < quoted_end(s, k, quote).1 ==> #[trigger] s[j] != NEWLINE,
    decreases s.len() - k,
{
    if k < s.len() && s[k] != NEWLINE && s[k] != quote {
        if s[k] == BACKSLASH && k + 1 < s.len() && s[k + 1] != NEWLINE {
            lemma_quoted_end(s, k + 2, quote);
        } else {
            lemma_quoted_end(s, k + 1, quote);
        }
    }
}

/// What a scan yields: a token whose lexeme is a span of the source behind the
/// skipped whitespace and comments, at the position of that span. The end of
/// input comes when, and only when, nothing is left behind them; any other
/// token has a lexeme that is not empty.
pub proof fn lemma_token_from(s: Seq<u8>, i: int)
    requires
        0 <= i <= s.len(),
    ensures
        token_from(s, i).offset == trivia_end(s, i),
        i <= token_from(s, i).offset <= token_from(s, i).end() <= s.len(),
        token_from(s, i).text == s.subrange(token_from(s, i).offset, token_from(s, i).end()),
        token_from(s, i).line == line_at(s, token_from(s, i).offset),
        token_from(s, i).column == column_at(s, token_from(s, i).offset),
        token_from(s, i).kind is EndOfInput <==> token_from(s, i).offset == s.len(),
        token_from(s, i).kind is EndOfInput <==> token_from(s, i).text.len() == 0,
        token_from(s, i).kind is EndOfInput ==> token_from(s, i) == end_of_input(s),
{
    lemma_trivia_end(s, i);
    let start = trivia_end(s, i);
    if start < s.len() {
        lemma_lexeme_at(s, start);
    } else {
        assert(s.subrange(start, start) =~= Seq::<u8>::empty());
    }
}

} // verus!
