//! The abstract syntax tree produced by the parser.
//!
//! Nodes own their children exclusively; leaves carry byte-range spans into
//! the source buffer rather than strings, so callers resolve text by
//! re-slicing the source. Each node family comes with a well-formedness
//! specification stating that every span is a valid byte range and every
//! identifier span slices to an identifier-shaped lexeme.

use vstd::prelude::*;

pub mod common;
pub mod expression;
pub mod settings;
pub mod shape;
pub mod template;

use self::settings::SettingsEntry;
use self::settings::settings_entry_wf;
use self::template::TemplateEntry;
use self::template::template_entry_wf;

verus! {

/// The root of a parsed Pax source file: any number of template entries and
/// settings entries, interleaved in the source.
#[derive(Debug, PartialEq)]
pub struct PaxAst {
    pub templates: Vec<TemplateEntry>,
    pub settings: Vec<SettingsEntry>,
}

/// Every node of the tree is well formed for the source buffer `src`.
pub open spec fn pax_ast_wf(ast: PaxAst, src: Seq<u8>) -> bool {
    &&& forall|i: int|
        0 <= i < ast.templates@.len() ==> template_entry_wf(#[trigger] ast.templates@[i], src)
    &&& forall|i: int|
        0 <= i < ast.settings@.len() ==> settings_entry_wf(#[trigger] ast.settings@[i], src)
}

} // verus!
