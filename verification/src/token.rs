//! Token kinds and spanned tokens.

use vstd::prelude::*;

use crate::span::Span;

verus! {

/// The closed set of token kinds the lexer can produce.
///
/// The default value is `EOF`, matching the synthesised end-of-input token.
#[derive(Debug, Clone, Copy, Default, PartialEq, Eq, Structural)]
pub enum TokenKind {
    Identifier,
    Integer,
    Float,
    String,
    Comment,
    /// `(`
    OpenParenth,
    /// `)`
    CloseParenth,
    /// `[`
    OpenSquareBrack,
    /// `]`
    CloseSquareBrack,
    /// `{`
    OpenCurlBrack,
    /// `}`
    CloseCurlBrack,
    /// `<`
    OpenAngBrack,
    /// `>`
    CloseAngBrack,
    /// `*`
    Asterisk,
    /// `+`
    Plus,
    /// `-`
    Minus,
    /// `/`
    Slash,
    /// `^`
    Exp,
    /// `%`
    Percent,
    /// `%%`
    Remainder,
    /// `@`
    AtSymbol,
    /// `#`
    Hashtag,
    /// `:`
    Colon,
    /// `::`
    PathSep,
    /// `,`
    Comma,
    /// `.`
    Period,
    /// `..`
    Range,
    /// `=`
    Assign,
    /// `==`
    Eq,
    /// `!`
    Not,
    /// `!=`
    NotEq,
    /// `<=`
    LessOrEq,
    /// `>=`
    MoreOrEq,
    /// `|`
    VertLine,
    /// `||`
    Or,
    /// `&`
    Ampersand,
    /// `&&`
    And,
    /// keyword `for`
    For,
    /// keyword `if`
    If,
    /// keyword `in`
    In,
    /// keyword `slot`
    Slot,
    /// keyword `bind`
    Bind,
    /// keyword `px`
    Pixels,
    /// keyword `deg`
    Degrees,
    /// keyword `rad`
    Radians,
    #[default]
    EOF,
    Unknown,
}

/// A token: a kind together with the byte span of its lexeme.
///
/// Tokens are value types; they neither own nor borrow source bytes.
#[derive(Debug, Clone, Copy, Default, PartialEq, Eq, Structural)]
pub struct Token {
    pub span: Span,
    pub kind: TokenKind,
}

/// The human-readable name of a token kind, as it appears in diagnostics.
pub open spec fn kind_text(k: TokenKind) -> Seq<char> {
    match k {
        TokenKind::Identifier => "identifier"@,
        TokenKind::Integer => "integer"@,
        TokenKind::Float => "float"@,
        TokenKind::String => "string"@,
        TokenKind::Comment => "comment"@,
        TokenKind::OpenParenth => "("@,
        TokenKind::CloseParenth => ")"@,
        TokenKind::OpenSquareBrack => "["@,
        TokenKind::CloseSquareBrack => "]"@,
        TokenKind::OpenCurlBrack => "{"@,
        TokenKind::CloseCurlBrack => "}"@,
        TokenKind::OpenAngBrack => "<"@,
        TokenKind::CloseAngBrack => ">"@,
        TokenKind::Asterisk => "*"@,
        TokenKind::Plus => "+"@,
        TokenKind::Minus => "-"@,
        TokenKind::Slash => "/"@,
        TokenKind::Exp => "^"@,
        TokenKind::Percent => "%"@,
        TokenKind::Remainder => "%%"@,
        TokenKind::AtSymbol => "@"@,
        TokenKind::Hashtag => "#"@,
        TokenKind::Colon => ":"@,
        TokenKind::PathSep => "::"@,
        TokenKind::Comma => ","@,
        TokenKind::Period => "."@,
        TokenKind::Range => ".."@,
        TokenKind::Assign => "="@,
        TokenKind::Eq => "=="@,
        TokenKind::Not => "!"@,
        TokenKind::NotEq => "!="@,
        TokenKind::LessOrEq => "<="@,
        TokenKind::MoreOrEq => ">="@,
        TokenKind::VertLine => "|"@,
        TokenKind::Or => "||"@,
        TokenKind::Ampersand => "&"@,
        TokenKind::And => "&&"@,
        TokenKind::For => "for"@,
        TokenKind::If => "if"@,
        TokenKind::In => "in"@,
        TokenKind::Slot => "slot"@,
        TokenKind::Bind => "bind"@,
        TokenKind::Pixels => "px"@,
        TokenKind::Degrees => "deg"@,
        TokenKind::Radians => "rad"@,
        TokenKind::EOF => "EOF"@,
        TokenKind::Unknown => "unknown"@,
    }
}

/// The executable counterpart of [`kind_text`].
pub fn kind_name(k: TokenKind) -> (r: &'static str)
    ensures
        r@ == kind_text(k),
{
    match k {
        TokenKind::Identifier => "identifier",
        TokenKind::Integer => "integer",
        TokenKind::Float => "float",
        TokenKind::String => "string",
        TokenKind::Comment => "comment",
        TokenKind::OpenParenth => "(",
        TokenKind::CloseParenth => ")",
        TokenKind::OpenSquareBrack => "[",
        TokenKind::CloseSquareBrack => "]",
        TokenKind::OpenCurlBrack => "{",
        TokenKind::CloseCurlBrack => "}",
        TokenKind::OpenAngBrack => "<",
        TokenKind::CloseAngBrack => ">",
        TokenKind::Asterisk => "*",
        TokenKind::Plus => "+",
        TokenKind::Minus => "-",
        TokenKind::Slash => "/",
        TokenKind::Exp => "^",
        TokenKind::Percent => "%",
        TokenKind::Remainder => "%%",
        TokenKind::AtSymbol => "@",
        TokenKind::Hashtag => "#",
        TokenKind::Colon => ":",
        TokenKind::PathSep => "::",
        TokenKind::Comma => ",",
        TokenKind::Period => ".",
        TokenKind::Range => "..",
        TokenKind::Assign => "=",
        TokenKind::Eq => "==",
        TokenKind::Not => "!",
        TokenKind::NotEq => "!=",
        TokenKind::LessOrEq => "<=",
        TokenKind::MoreOrEq => ">=",
        TokenKind::VertLine => "|",
        TokenKind::Or => "||",
        TokenKind::Ampersand => "&",
        TokenKind::And => "&&",
        TokenKind::For => "for",
        TokenKind::If => "if",
        TokenKind::In => "in",
        TokenKind::Slot => "slot",
        TokenKind::Bind => "bind",
        TokenKind::Pixels => "px",
        TokenKind::Degrees => "deg",
        TokenKind::Radians => "rad",
        TokenKind::EOF => "EOF",
        TokenKind::Unknown => "unknown",
    }
}

} // verus!
