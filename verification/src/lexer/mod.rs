//! The lexer and the pieces it is made of.

pub mod bytes;
pub mod grammar;
pub mod lexer;
pub mod position;
pub mod scan;
pub mod stream;
pub mod token;
