//! Tokens: what the lexer hands out.
//!
//! Text is kept as bytes, copied out of the source, so that a token lives on
//! when the lexer is gone. Tokens are plain values; the lexer's contracts say
//! which token comes out of which source.

use vstd::prelude::*;

verus! {

/// Why a lexeme is no token of the language.
#[derive(Clone, Copy, Debug, PartialEq, Eq, Structural)]
pub enum LexError {
    /// A string literal that its line, or the source, ends before its closing
    /// quote.
    UnterminatedString,
    /// A character literal that its line, or the source, ends before its
    /// closing quote.
    UnterminatedChar,
    /// A block comment that the source ends before its closing star and slash.
    UnterminatedComment,
    /// A character that begins no lexeme.
    UnrecognizedCharacter,
    /// Digits and dots that form neither an integer nor a float.
    MalformedNumber,
    /// A closed character literal that does not hold exactly one character.
    MalformedChar,
}

impl LexError {
    /// The reason in words.
    pub open spec fn reason(self) -> Seq<char> {
        match self {
            LexError::UnterminatedString => "unterminated string"@,
            LexError::UnterminatedChar => "unterminated character literal"@,
            LexError::UnterminatedComment => "unterminated comment"@,
            LexError::UnrecognizedCharacter => "unrecognized character"@,
            LexError::MalformedNumber => "malformed number"@,
            LexError::MalformedChar => "malformed character literal"@,
        }
    }

    /// The reason in words, for a reader of diagnostics.
    pub fn message(self) -> (text: &'static str)
        ensures
            text@ == self.reason(),
    {
        match self {
            LexError::UnterminatedString => "unterminated string",
            LexError::UnterminatedChar => "unterminated character literal",
            LexError::UnterminatedComment => "unterminated comment",
            LexError::UnrecognizedCharacter => "unrecognized character",
            LexError::MalformedNumber => "malformed number",
            LexError::MalformedChar => "malformed character literal",
        }
    }
}

/// The kinds of token.
///
/// A literal carries its text as the source has it. For a string or a
/// character literal that is the body between the quotes, with every escape
/// left as written.
#[derive(Clone, Debug, PartialEq, Eq)]
pub enum TokenKind {
    /// `{`
    LBrace,
    /// `}`
    RBrace,
    /// `(`
    LParen,
    /// `)`
    RParen,
    /// `[`
    LBracket,
    /// `]`
    RBracket,
    /// `;`
    Semicolon,
    /// `:`
    Colon,
    /// `,`
    Comma,
    /// `.`
    Dot,
    /// `=`
    Assign,
    /// `==`
    Equals,
    /// `!=`
    NotEquals,
    /// `<`
    Less,
    /// `<=`
    LessEqual,
    /// `>`
    Greater,
    /// `>=`
    GreaterEqual,
    /// `+`
    Plus,
    /// `-`
    Minus,
    /// `*`
    Star,
    /// `/`
    Slash,
    /// `%`
    Percent,
    /// `!`
    Not,
    /// `&&`
    And,
    /// `||`
    Or,
    Package,
    Import,
    Class,
    Public,
    Protected,
    Private,
    Static,
    Abstract,
    Final,
    If,
    Else,
    Return,
    Byte,
    Short,
    Int,
    Long,
    Char,
    Float,
    Double,
    Boolean,
    Void,
    /// A run of digits.
    IntLiteral(Vec<u8>),
    /// Digits, a dot, digits.
    FloatLiteral(Vec<u8>),
    /// The body of a string literal.
    StringLiteral(Vec<u8>),
    /// The body of a character literal.
    CharLiteral(Vec<u8>),
    /// `true` or `false`.
    BooleanLiteral(bool),
    /// A name that is no reserved word.
    Identifier(Vec<u8>),
    /// The end of the source. It comes last, and then again at every call.
    EndOfInput,
    /// A lexeme that is no token of the language, and why.
    Invalid(Vec<u8>, LexError),
}

/// A kind of token as a mathematical value: `TokenKind` with sequences for
/// vectors.
pub enum KindView {
    LBrace,
    RBrace,
    LParen,
    RParen,
    LBracket,
    RBracket,
    Semicolon,
    Colon,
    Comma,
    Dot,
    Assign,
    Equals,
    NotEquals,
    Less,
    LessEqual,
    Greater,
    GreaterEqual,
    Plus,
    Minus,
    Star,
    Slash,
    Percent,
    Not,
    And,
    Or,
    Package,
    Import,
    Class,
    Public,
    Protected,
    Private,
    Static,
    Abstract,
    Final,
    If,
    Else,
    Return,
    Byte,
    Short,
    Int,
    Long,
    Char,
    Float,
    Double,
    Boolean,
    Void,
    IntLiteral(Seq<u8>),
    FloatLiteral(Seq<u8>),
    StringLiteral(Seq<u8>),
    CharLiteral(Seq<u8>),
    BooleanLiteral(bool),
    Identifier(Seq<u8>),
    EndOfInput,
    Invalid(Seq<u8>, LexError),
}

impl View for TokenKind {
    type V = KindView;

    open spec fn view(&self) -> KindView {
        match self {
            TokenKind::LBrace => KindView::LBrace,
            TokenKind::RBrace => KindView::RBrace,
            TokenKind::LParen => KindView::LParen,
            TokenKind::RParen => KindView::RParen,
            TokenKind::LBracket => KindView::LBracket,
            TokenKind::RBracket => KindView::RBracket,
            TokenKind::Semicolon => KindView::Semicolon,
            TokenKind::Colon => KindView::Colon,
            TokenKind::Comma => KindView::Comma,
            TokenKind::Dot => KindView::Dot,
            TokenKind::Assign => KindView::Assign,
            TokenKind::Equals => KindView::Equals,
            TokenKind::NotEquals => KindView::NotEquals,
            TokenKind::Less => KindView::Less,
            TokenKind::LessEqual => KindView::LessEqual,
            TokenKind::Greater => KindView::Greater,
            TokenKind::GreaterEqual => KindView::GreaterEqual,
            TokenKind::Plus => KindView::Plus,
            TokenKind::Minus => KindView::Minus,
            TokenKind::Star => KindView::Star,
            TokenKind::Slash => KindView::Slash,
            TokenKind::Percent => KindView::Percent,
            TokenKind::Not => KindView::Not,
            TokenKind::And => KindView::And,
            TokenKind::Or => KindView::Or,
            TokenKind::Package => KindView::Package,
            TokenKind::Import => KindView::Import,
            TokenKind::Class => KindView::Class,
            TokenKind::Public => KindView::Public,
            TokenKind::Protected => KindView::Protected,
            TokenKind::Private => KindView::Private,
            TokenKind::Static => KindView::Static,
            TokenKind::Abstract => KindView::Abstract,
            TokenKind::Final => KindView::Final,
            TokenKind::If => KindView::If,
            TokenKind::Else => KindView::Else,
            TokenKind::Return => KindView::Return,
            TokenKind::Byte => KindView::Byte,
            TokenKind::Short => KindView::Short,
            TokenKind::Int => KindView::Int,
            TokenKind::Long => KindView::Long,
            TokenKind::Char => KindView::Char,
            TokenKind::Float => KindView::Float,
            TokenKind::Double => KindView::Double,
            TokenKind::Boolean => KindView::Boolean,
            TokenKind::Void => KindView::Void,
            TokenKind::IntLiteral(text) => KindView::IntLiteral(text@),
            TokenKind::FloatLiteral(text) => KindView::FloatLiteral(text@),
            TokenKind::StringLiteral(text) => KindView::StringLiteral(text@),
            TokenKind::CharLiteral(text) => KindView::CharLiteral(text@),
            TokenKind::BooleanLiteral(value) => KindView::BooleanLiteral(*value),
            TokenKind::Identifier(text) => KindView::Identifier(text@),
            TokenKind::EndOfInput => KindView::EndOfInput,
            TokenKind::Invalid(text, error) => KindView::Invalid(text@, *error),
        }
    }
}

/// Where a lexeme begins: its line and its column, both counted from 1, and
/// its offset in bytes from the beginning of the source.
#[derive(Clone, Copy, Debug, PartialEq, Eq, Structural)]
pub struct Position {
    pub line: usize,
    pub column: usize,
    pub offset: usize,
}

/// A token: its kind, its lexeme, and where the lexeme begins.
#[derive(Clone, Debug, PartialEq, Eq)]
pub struct Token {
    pub kind: TokenKind,
    /// The lexeme: the bytes of the source that the token was read from, all
    /// of them, the quotes of a literal too.
    pub text: Vec<u8>,
    pub position: Position,
}

/// A token as a mathematical value.
pub struct TokenView {
    pub kind: KindView,
    pub text: Seq<u8>,
    pub line: int,
    pub column: int,
    pub offset: int,
}

impl TokenView {
    /// The offset behind the lexeme.
    pub open spec fn end(self) -> int {
        self.offset + self.text.len()
    }
}

impl View for Token {
    type V = TokenView;

    open spec fn view(&self) -> TokenView {
        TokenView {
            kind: self.kind@,
            text: self.text@,
            line: self.position.line as int,
            column: self.position.column as int,
            offset: self.position.offset as int,
        }
    }
}

/// The tokens of a sequence as mathematical values.
pub open spec fn token_views(tokens: Seq<Token>) -> Seq<TokenView> {
    tokens.map_values(|token: Token| token@)
}

} // verus!
