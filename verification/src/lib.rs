//! A lexical analyzer for a small Java-like language.
//!
//! The analyzer turns source text into a stream of positioned tokens. Its
//! grammar is stated once, as mathematical functions over the bytes of the
//! source, and every executable function is proved to compute what those
//! functions say.

pub mod lexer;
