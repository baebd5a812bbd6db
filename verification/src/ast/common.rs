//! AST nodes shared between templates, settings and expressions.

use vstd::prelude::*;

use crate::ast::expression::Expression;
use crate::ast::expression::expression_wf;
use crate::lexer::is_ident_bytes;
use crate::span::Span;
use crate::span::span_wf;

verus! {

/// An entry of a map block: either a `key: value` field or a standalone
/// comment.
#[derive(Debug, PartialEq)]
pub enum FieldOrComment {
    Field(Field),
    Comment(Comment),
}

/// An identifier leaf: the byte span of its lexeme.
#[derive(Debug, Clone, Copy, PartialEq, Eq, Structural)]
pub struct Identifier(pub Span);

/// A `key: value` pair whose value is an expression.
#[derive(Debug, PartialEq)]
pub struct Field {
    pub key: Identifier,
    pub value: Expression,
}

/// A name-to-name binding from an event identifier to a callback
/// identifier.
#[derive(Debug, Clone, Copy, PartialEq, Eq, Structural)]
pub struct Handler {
    pub key: Identifier,
    pub value: Identifier,
}

/// A standalone comment: the byte span of its text.
#[derive(Debug, Clone, Copy, PartialEq, Eq, Structural)]
pub struct Comment(pub Span);

/// An identifier is well formed when its span is a valid byte range whose
/// slice has identifier shape: a letter followed by letters, digits or
/// underscores.
pub open spec fn identifier_wf(id: Identifier, src: Seq<u8>) -> bool {
    &&& span_wf(id.0, src)
    &&& is_ident_bytes(src.subrange(id.0.start as int, id.0.end as int))
}

pub open spec fn comment_wf(c: Comment, src: Seq<u8>) -> bool {
    span_wf(c.0, src)
}

pub open spec fn handler_wf(h: Handler, src: Seq<u8>) -> bool {
    identifier_wf(h.key, src) && identifier_wf(h.value, src)
}

pub open spec fn field_wf(f: Field, src: Seq<u8>) -> bool
    decreases f,
{
    identifier_wf(f.key, src) && expression_wf(f.value, src)
}

pub open spec fn field_or_comment_wf(e: FieldOrComment, src: Seq<u8>) -> bool
    decreases e,
{
    match e {
        FieldOrComment::Field(f) => field_wf(f, src),
        FieldOrComment::Comment(c) => comment_wf(c, src),
    }
}

} // verus!
