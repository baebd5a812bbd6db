//! A verified front-end for the Pax declarative UI language: a byte-level
//! lexer and a recursive-descent parser with a Pratt expression core.
//!
//! The lexer turns a UTF-8 source buffer into a stream of spanned tokens and
//! never fails; the parser turns the token stream into an abstract syntax
//! tree whose leaves are byte-range spans back into the source, or a
//! structured diagnostic pinned to the offending span.

pub mod ast;
pub mod lexer;
pub mod multipeek;
pub mod parser;
pub mod span;
pub mod token;

pub use ast::PaxAst;
pub use parser::Parser;
pub use span::Span;
pub use token::Token;
pub use token::TokenKind;
