//! Settings-block nodes: handlers, class styles and id styles.

use vstd::prelude::*;

use crate::ast::common::Comment;
use crate::ast::common::FieldOrComment;
use crate::ast::common::Handler;
use crate::ast::common::Identifier;
use crate::ast::common::comment_wf;
use crate::ast::common::field_or_comment_wf;
use crate::ast::common::handler_wf;
use crate::ast::common::identifier_wf;

verus! {

/// One entry of an `@settings { .. }` block.
#[derive(Debug, PartialEq)]
pub enum SettingsEntry {
    Comment(Comment),
    Handler(Handler),
    Class(Class),
    Id(Id),
}

/// A class style: `.name { .. }`.
#[derive(Debug, PartialEq)]
pub struct Class {
    pub name: Identifier,
    pub binding: Vec<FieldOrComment>,
}

/// An id style: `#name { .. }`.
#[derive(Debug, PartialEq)]
pub struct Id {
    pub name: Identifier,
    pub binding: Vec<FieldOrComment>,
}

pub open spec fn class_wf(c: Class, src: Seq<u8>) -> bool {
    &&& identifier_wf(c.name, src)
    &&& forall|i: int|
        0 <= i < c.binding@.len() ==> field_or_comment_wf(#[trigger] c.binding@[i], src)
}

pub open spec fn id_wf(c: Id, src: Seq<u8>) -> bool {
    &&& identifier_wf(c.name, src)
    &&& forall|i: int|
        0 <= i < c.binding@.len() ==> field_or_comment_wf(#[trigger] c.binding@[i], src)
}

pub open spec fn settings_entry_wf(e: SettingsEntry, src: Seq<u8>) -> bool {
    match e {
        SettingsEntry::Comment(c) => comment_wf(c, src),
        SettingsEntry::Handler(h) => handler_wf(h, src),
        SettingsEntry::Class(c) => class_wf(c, src),
        SettingsEntry::Id(i) => id_wf(i, src),
    }
}

} // verus!
