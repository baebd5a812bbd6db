//! Template-tree nodes: tags, loops, conditionals, slots and attributes.

use vstd::prelude::*;

use crate::ast::common::Comment;
use crate::ast::common::Field;
use crate::ast::common::Handler;
use crate::ast::common::Identifier;
use crate::ast::common::comment_wf;
use crate::ast::common::field_wf;
use crate::ast::common::handler_wf;
use crate::ast::common::identifier_wf;
use crate::ast::expression::Expression;
use crate::ast::expression::expression_wf;

verus! {

/// One entry of a template tree.
#[derive(Debug, PartialEq)]
pub enum TemplateEntry {
    Comment(Comment),
    Tag(Tag),
    Loop(Loop),
    Conditional(Conditional),
    Slot(Expression),
}

/// `for pattern in source { body }`.
#[derive(Debug, PartialEq)]
pub struct Loop {
    pub pattern: MatchPattern,
    pub source: Expression,
    pub body: Vec<TemplateEntry>,
}

/// `if condition { body }`.
#[derive(Debug, PartialEq)]
pub struct Conditional {
    pub condition: Expression,
    pub body: Vec<TemplateEntry>,
}

/// `<name attributes...> body </name>` or `<name attributes.../>`.
#[derive(Debug, PartialEq)]
pub struct Tag {
    pub name: Identifier,
    pub attributes: Vec<Attribute>,
    pub body: Vec<TemplateEntry>,
}

/// A key/value pair attached to an open tag.
#[derive(Debug, PartialEq)]
pub enum Attribute {
    /// `@event=callback`
    Handler(Handler),
    /// `key=value`
    Field(Field),
    /// `bind:key=value`
    Binding(Binding),
}

/// A two-way data link from a template to state: `bind:key=value`.
#[derive(Debug, Clone, Copy, PartialEq, Eq, Structural)]
pub struct Binding {
    pub key: Identifier,
    pub value: Identifier,
}

/// The pattern of a `for` loop: a bare identifier or a pair.
#[derive(Debug, Clone, Copy, PartialEq, Eq, Structural)]
pub enum MatchPattern {
    Identifier(Identifier),
    Tuple(Identifier, Identifier),
}

pub open spec fn binding_wf(b: Binding, src: Seq<u8>) -> bool {
    identifier_wf(b.key, src) && identifier_wf(b.value, src)
}

pub open spec fn match_pattern_wf(p: MatchPattern, src: Seq<u8>) -> bool {
    match p {
        MatchPattern::Identifier(id) => identifier_wf(id, src),
        MatchPattern::Tuple(a, b) => identifier_wf(a, src) && identifier_wf(b, src),
    }
}

pub open spec fn attribute_wf(a: Attribute, src: Seq<u8>) -> bool {
    match a {
        Attribute::Handler(h) => handler_wf(h, src),
        Attribute::Field(f) => field_wf(f, src),
        Attribute::Binding(b) => binding_wf(b, src),
    }
}

pub open spec fn template_entry_wf(e: TemplateEntry, src: Seq<u8>) -> bool
    decreases e,
{
    match e {
        TemplateEntry::Comment(c) => comment_wf(c, src),
        TemplateEntry::Tag(t) => tag_wf(t, src),
        TemplateEntry::Loop(l) => loop_wf(l, src),
        TemplateEntry::Conditional(c) => conditional_wf(c, src),
        TemplateEntry::Slot(e) => expression_wf(e, src),
    }
}

pub open spec fn tag_wf(t: Tag, src: Seq<u8>) -> bool
    decreases t,
{
    &&& identifier_wf(t.name, src)
    &&& forall|i: int| 0 <= i < t.attributes@.len() ==> attribute_wf(#[trigger] t.attributes@[i], src)
    &&& forall|i: int| 0 <= i < t.body@.len() ==> template_entry_wf(#[trigger] t.body@[i], src)
}

pub open spec fn loop_wf(l: Loop, src: Seq<u8>) -> bool
    decreases l,
{
    &&& match_pattern_wf(l.pattern, src)
    &&& expression_wf(l.source, src)
    &&& forall|i: int| 0 <= i < l.body@.len() ==> template_entry_wf(#[trigger] l.body@[i], src)
}

pub open spec fn conditional_wf(c: Conditional, src: Seq<u8>) -> bool
    decreases c,
{
    &&& expression_wf(c.condition, src)
    &&& forall|i: int| 0 <= i < c.body@.len() ==> template_entry_wf(#[trigger] c.body@[i], src)
}

} // verus!
