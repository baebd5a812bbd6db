//! The grammar, at the specification level: one function per rule, over the
//! token sequence, each returning the position just past the rule's extent
//! on success and `None` where the rule raises a diagnostic.
//!
//! These functions mirror the grammar exactly — dispatch, lookahead,
//! optional commas, the byte-wise name checks — so each executable rule
//! ensures that it succeeds *if and only if* its specification function
//! does, ending exactly at the position the function gives: success is
//! owed wherever the grammar accepts, and an implementation that failed
//! there, or stopped at the wrong place, could not verify.

use vstd::prelude::*;

use crate::ast::common::Comment;
use crate::ast::common::Handler;
use crate::ast::common::Identifier;
use crate::ast::expression::BinaryOp;
use crate::ast::expression::UnaryOp;
use crate::ast::expression::Unit;
use crate::ast::shape::AttributeShape;
use crate::ast::shape::ExprShape;
use crate::ast::shape::FieldShape;
use crate::ast::shape::SettingsShape;
use crate::ast::shape::TemplateShape;
use crate::ast::shape::ValueShape;
use crate::ast::template::Binding;
use crate::ast::template::MatchPattern;
use crate::parser::common::kind_at;
use crate::parser::common::spec_map_next;
use crate::span::Span;
use crate::token::Token;
use crate::token::TokenKind;

verus! {

/// The byte slice a token covers.
pub open spec fn slice_of_span(src: Seq<u8>, s: Span) -> Seq<u8> {
    src.subrange(s.start as int, s.end as int)
}

/// Clamps a continuation position into `(at, len]`. Every sub-rule really
/// ends past its start and inside the stream (its function guarantees it),
/// but the termination checker needs that by construction, so grammar
/// functions continue at `advance(at, n, len)` rather than at `n` directly;
/// the two coincide whenever `at < n <= len`.
pub open spec fn advance(at: int, n: int, len: int) -> int {
    if at < n && n <= len {
        n
    } else if at + 1 <= len {
        at + 1
    } else {
        len
    }
}

/// The left and right binding powers of the infix operator a token kind
/// stands for; `(0, 0)` for kinds that are no infix operator.
pub open spec fn spec_infix_bp(k: TokenKind) -> (u8, u8) {
    if k == TokenKind::Or || k == TokenKind::And {
        (1u8, 2u8)
    } else if k == TokenKind::NotEq || k == TokenKind::LessOrEq || k == TokenKind::MoreOrEq
        || k == TokenKind::CloseAngBrack || k == TokenKind::OpenAngBrack || k == TokenKind::Eq {
        (3u8, 4u8)
    } else if k == TokenKind::Plus || k == TokenKind::Minus {
        (5u8, 6u8)
    } else if k == TokenKind::Asterisk || k == TokenKind::Slash {
        (7u8, 8u8)
    } else if k == TokenKind::Remainder {
        (9u8, 10u8)
    } else if k == TokenKind::Exp {
        (13u8, 14u8)
    } else if k == TokenKind::Range {
        (15u8, 16u8)
    } else {
        (0u8, 0u8)
    }
}

/// A binary-operator token kind.
pub open spec fn infix_kind(k: TokenKind) -> bool {
    ||| k == TokenKind::Or
    ||| k == TokenKind::And
    ||| k == TokenKind::NotEq
    ||| k == TokenKind::LessOrEq
    ||| k == TokenKind::MoreOrEq
    ||| k == TokenKind::CloseAngBrack
    ||| k == TokenKind::OpenAngBrack
    ||| k == TokenKind::Eq
    ||| k == TokenKind::Plus
    ||| k == TokenKind::Minus
    ||| k == TokenKind::Asterisk
    ||| k == TokenKind::Slash
    ||| k == TokenKind::Remainder
    ||| k == TokenKind::Exp
    ||| k == TokenKind::Range
}

/// A unit-postfix token kind.
pub open spec fn postfix_unit_kind(k: TokenKind) -> bool {
    ||| k == TokenKind::Pixels
    ||| k == TokenKind::Percent
    ||| k == TokenKind::Degrees
    ||| k == TokenKind::Radians
}

/// A dotted variable path: `ident (. ident)*`.
pub open spec fn spec_variable(toks: Seq<Token>, at: int) -> Option<int>
    decreases toks.len() - at, 7int,
{
    if kind_at(toks, at) != TokenKind::Identifier {
        None
    } else if kind_at(toks, at + 1) == TokenKind::Period {
        spec_variable(toks, at + 2)
    } else {
        Some(at + 1)
    }
}

/// `name(arguments...)`.
pub open spec fn spec_function_call(toks: Seq<Token>, at: int) -> Option<int>
    decreases toks.len() - at, 7int,
{
    if kind_at(toks, at) != TokenKind::Identifier {
        None
    } else {
        spec_sequence(toks, at + 1, TokenKind::OpenParenth, TokenKind::CloseParenth)
    }
}

/// `Name::Variant`, optionally followed by parenthesised arguments.
pub open spec fn spec_enum_variant(toks: Seq<Token>, at: int) -> Option<int>
    decreases toks.len() - at, 7int,
{
    if kind_at(toks, at) == TokenKind::Identifier && kind_at(toks, at + 1) == TokenKind::PathSep
        && kind_at(toks, at + 2) == TokenKind::Identifier {
        if kind_at(toks, at + 3) == TokenKind::OpenParenth {
            spec_sequence(toks, at + 3, TokenKind::OpenParenth, TokenKind::CloseParenth)
        } else {
            Some(at + 3)
        }
    } else {
        None
    }
}

/// Expressions between `open` and `close`, commas as optional separators.
pub open spec fn spec_sequence(toks: Seq<Token>, at: int, open: TokenKind, close: TokenKind) -> Option<
    int,
>
    decreases toks.len() - at, 7int,
{
    if 0 <= at < toks.len() && kind_at(toks, at) == open {
        spec_seq_items(toks, at + 1, close)
    } else {
        None
    }
}

/// The items of a bracketed sequence, up to and including `close`.
pub open spec fn spec_seq_items(toks: Seq<Token>, at: int, close: TokenKind) -> Option<int>
    decreases toks.len() - at, 10int,
{
    if kind_at(toks, at) == close {
        Some(at + 1)
    } else if kind_at(toks, at) == TokenKind::EOF {
        None
    } else {
        match spec_expr_bp(toks, at, 0) {
            Some(n) => {
                let n2 = if kind_at(toks, n) == TokenKind::Comma {
                    n + 1
                } else {
                    n
                };
                spec_seq_items(toks, advance(at, n2, toks.len() as int), close)
            },
            None => None,
        }
    }
}

/// An object: an optional leading identifier naming its type, then a map.
pub open spec fn spec_object(toks: Seq<Token>, at: int) -> Option<int>
    decreases toks.len() - at, 7int,
{
    if kind_at(toks, at) == TokenKind::Identifier {
        spec_map(toks, at + 1)
    } else {
        spec_map(toks, at)
    }
}

/// A map: `{` then fields and comments up to `}`.
pub open spec fn spec_map(toks: Seq<Token>, at: int) -> Option<int>
    decreases toks.len() - at, 6int,
{
    if kind_at(toks, at) == TokenKind::OpenCurlBrack {
        spec_map_items(toks, at + 1)
    } else {
        None
    }
}

/// The entries of a map: `ident : value` fields with optional trailing
/// commas, standalone comments, up to and including `}`.
pub open spec fn spec_map_items(toks: Seq<Token>, at: int) -> Option<int>
    decreases toks.len() - at, 5int,
{
    if kind_at(toks, at) == TokenKind::Identifier {
        if kind_at(toks, at + 1) != TokenKind::Colon {
            None
        } else {
            match spec_literal_or_wrapped(toks, at + 2) {
                Some(n) => {
                    let n2 = if kind_at(toks, n) == TokenKind::Comma {
                        n + 1
                    } else {
                        n
                    };
                    spec_map_items(toks, advance(at, n2, toks.len() as int))
                },
                None => None,
            }
        }
    } else if kind_at(toks, at) == TokenKind::Comment {
        spec_map_items(toks, at + 1)
    } else if kind_at(toks, at) == TokenKind::CloseCurlBrack {
        Some(at + 1)
    } else {
        None
    }
}

/// One value, dispatched on the next token and one token of lookahead.
pub open spec fn spec_value(toks: Seq<Token>, at: int) -> Option<int>
    decreases toks.len() - at, 8int,
{
    let k = kind_at(toks, at);
    if k == TokenKind::Integer || k == TokenKind::Float || k == TokenKind::String {
        Some(at + 1)
    } else if k == TokenKind::Identifier {
        let k1 = kind_at(toks, at + 1);
        if k1 == TokenKind::OpenParenth {
            spec_function_call(toks, at)
        } else if k1 == TokenKind::PathSep {
            spec_enum_variant(toks, at)
        } else if k1 == TokenKind::OpenCurlBrack && spec_map_next(toks, at) {
            spec_object(toks, at)
        } else {
            spec_variable(toks, at)
        }
    } else if k == TokenKind::OpenCurlBrack {
        spec_object(toks, at)
    } else if k == TokenKind::OpenSquareBrack {
        spec_sequence(toks, at, TokenKind::OpenSquareBrack, TokenKind::CloseSquareBrack)
    } else if k == TokenKind::OpenParenth {
        spec_sequence(toks, at, TokenKind::OpenParenth, TokenKind::CloseParenth)
    } else {
        None
    }
}

/// A literal: a value, then a unit token exactly when the value is numeric
/// (its first token an `Integer` or `Float`) and a unit kind follows.
pub open spec fn spec_literal(toks: Seq<Token>, at: int) -> Option<int>
    decreases toks.len() - at, 11int,
{
    match spec_value(toks, at) {
        Some(n) => {
            let numeric = kind_at(toks, at) == TokenKind::Integer || kind_at(toks, at)
                == TokenKind::Float;
            if numeric && postfix_unit_kind(kind_at(toks, n)) {
                Some(n + 1)
            } else {
                Some(n)
            }
        },
        None => None,
    }
}

/// Either `{ expression }` — when the braces do not open a map — or a
/// literal.
#[verifier::opaque]
pub open spec fn spec_literal_or_wrapped(toks: Seq<Token>, at: int) -> Option<int>
    decreases toks.len() - at, 12int,
{
    if kind_at(toks, at) == TokenKind::OpenCurlBrack && !spec_map_next(toks, at) {
        match spec_expr_bp(toks, at + 1, 0) {
            Some(n) => if kind_at(toks, n) == TokenKind::CloseCurlBrack {
                Some(n + 1)
            } else {
                None
            },
            None => None,
        }
    } else {
        spec_literal(toks, at)
    }
}

/// A Pratt expression at minimum binding power `min_bp`: a prefix
/// production, then the operator fold of [`spec_pratt`].
pub open spec fn spec_expr_bp(toks: Seq<Token>, at: int, min_bp: u8) -> Option<int>
    decreases toks.len() - at, 9int,
{
    let k = kind_at(toks, at);
    if k == TokenKind::Identifier || k == TokenKind::Integer || k == TokenKind::Float || k
        == TokenKind::OpenCurlBrack || k == TokenKind::String || k == TokenKind::OpenSquareBrack
        || k == TokenKind::OpenParenth {
        match spec_value(toks, at) {
            Some(n) => spec_pratt(toks, advance(at, n, toks.len() as int), min_bp),
            None => None,
        }
    } else if k == TokenKind::Not || k == TokenKind::Minus {
        match spec_expr_bp(toks, at + 1, 17) {
            Some(n) => spec_pratt(toks, advance(at, n, toks.len() as int), min_bp),
            None => None,
        }
    } else {
        None
    }
}

/// The Pratt operator fold: starting just past a parsed operand, folds in
/// binary and unit-postfix operators while their left binding power
/// reaches `min_bp`; a `/` directly followed by `>` ends the expression.
pub open spec fn spec_pratt(toks: Seq<Token>, at: int, min_bp: u8) -> Option<int>
    decreases toks.len() - at, 9int,
{
    let k = kind_at(toks, at);
    if postfix_unit_kind(k) {
        if 19u8 < min_bp {
            Some(at)
        } else {
            spec_pratt(toks, at + 1, min_bp)
        }
    } else if k == TokenKind::Slash && kind_at(toks, at + 1) == TokenKind::CloseAngBrack {
        Some(at)
    } else if infix_kind(k) {
        let (lbp, rbp) = spec_infix_bp(k);
        if lbp < min_bp {
            Some(at)
        } else {
            match spec_expr_bp(toks, at + 1, rbp) {
                Some(n) => spec_pratt(toks, advance(at, n, toks.len() as int), min_bp),
                None => None,
            }
        }
    } else {
        Some(at)
    }
}

/// One attribute: `@event=callback`, `bind:key=value`, or `key=value`.
pub open spec fn spec_attribute(toks: Seq<Token>, at: int) -> Option<int>
    decreases toks.len() - at, 14int,
{
    let k = kind_at(toks, at);
    if k == TokenKind::AtSymbol {
        if kind_at(toks, at + 1) == TokenKind::Identifier && kind_at(toks, at + 2)
            == TokenKind::Assign && kind_at(toks, at + 3) == TokenKind::Identifier {
            Some(at + 4)
        } else {
            None
        }
    } else if k == TokenKind::Bind {
        if kind_at(toks, at + 1) == TokenKind::Colon && kind_at(toks, at + 2)
            == TokenKind::Identifier && kind_at(toks, at + 3) == TokenKind::Assign && kind_at(
            toks,
            at + 4,
        ) == TokenKind::Identifier {
            Some(at + 5)
        } else {
            None
        }
    } else if k == TokenKind::Identifier {
        if kind_at(toks, at + 1) == TokenKind::Assign {
            spec_literal_or_wrapped(toks, at + 2)
        } else {
            None
        }
    } else {
        None
    }
}

/// A tag's attribute list: attributes up to the `>` or `/` that ends it.
pub open spec fn spec_attrs(toks: Seq<Token>, at: int) -> Option<int>
    decreases toks.len() - at, 15int,
{
    let k = kind_at(toks, at);
    if k == TokenKind::CloseAngBrack || k == TokenKind::Slash {
        Some(at)
    } else if k == TokenKind::EOF {
        None
    } else {
        match spec_attribute(toks, at) {
            Some(n) => spec_attrs(toks, advance(at, n, toks.len() as int)),
            None => None,
        }
    }
}

/// A tag: `<name attributes...`, then either `/>` or `> body </name>`
/// where the closing identifier must slice to the same bytes as the
/// opening name.
#[verifier::opaque]
pub open spec fn spec_tag(src: Seq<u8>, toks: Seq<Token>, at: int) -> Option<int>
    decreases toks.len() - at, 16int,
{
    if kind_at(toks, at) == TokenKind::OpenAngBrack && kind_at(toks, at + 1)
        == TokenKind::Identifier {
        match spec_attrs(toks, at + 2) {
            Some(p) => {
                if kind_at(toks, p) == TokenKind::CloseAngBrack {
                    match spec_template(src, toks, advance(at, p + 1, toks.len() as int)) {
                        Some(q) => {
                            if kind_at(toks, q) == TokenKind::OpenAngBrack && kind_at(toks, q + 1)
                                == TokenKind::Slash && kind_at(toks, q + 2)
                                == TokenKind::Identifier && kind_at(toks, q + 3)
                                == TokenKind::CloseAngBrack && slice_of_span(
                                src,
                                toks[q + 2].span,
                            ) == slice_of_span(src, toks[at + 1].span) {
                                Some(q + 4)
                            } else {
                                None
                            }
                        },
                        None => None,
                    }
                } else if kind_at(toks, p) == TokenKind::Slash {
                    if kind_at(toks, p + 1) == TokenKind::CloseAngBrack {
                        Some(p + 2)
                    } else {
                        None
                    }
                } else {
                    None
                }
            },
            None => None,
        }
    } else {
        None
    }
}

/// `for pattern in expression { template }`.
#[verifier::opaque]
pub open spec fn spec_for_loop(src: Seq<u8>, toks: Seq<Token>, at: int) -> Option<int>
    decreases toks.len() - at, 16int,
{
    if kind_at(toks, at) != TokenKind::For {
        None
    } else {
        let p = if kind_at(toks, at + 1) == TokenKind::OpenParenth {
            if kind_at(toks, at + 2) == TokenKind::Identifier && kind_at(toks, at + 3)
                == TokenKind::Comma && kind_at(toks, at + 4) == TokenKind::Identifier && kind_at(
                toks,
                at + 5,
            ) == TokenKind::CloseParenth {
                Some(at + 6)
            } else {
                None::<int>
            }
        } else if kind_at(toks, at + 1) == TokenKind::Identifier {
            Some(at + 2)
        } else {
            None::<int>
        };
        match p {
            Some(p) => {
                if kind_at(toks, p) != TokenKind::In {
                    None
                } else {
                    match spec_expr_bp(toks, advance(at, p + 1, toks.len() as int), 0) {
                        Some(n) => {
                            if kind_at(toks, n) != TokenKind::OpenCurlBrack {
                                None
                            } else {
                                match spec_template(
                                    src,
                                    toks,
                                    advance(at, n + 1, toks.len() as int),
                                ) {
                                    Some(q) => if kind_at(toks, q) == TokenKind::CloseCurlBrack {
                                        Some(q + 1)
                                    } else {
                                        None
                                    },
                                    None => None,
                                }
                            }
                        },
                        None => None,
                    }
                }
            },
            None => None,
        }
    }
}

/// `if expression { template }`.
#[verifier::opaque]
pub open spec fn spec_condition(src: Seq<u8>, toks: Seq<Token>, at: int) -> Option<int>
    decreases toks.len() - at, 16int,
{
    if kind_at(toks, at) != TokenKind::If {
        None
    } else {
        match spec_expr_bp(toks, at + 1, 0) {
            Some(n) => {
                if kind_at(toks, n) != TokenKind::OpenCurlBrack {
                    None
                } else {
                    match spec_template(src, toks, advance(at, n + 1, toks.len() as int)) {
                        Some(q) => if kind_at(toks, q) == TokenKind::CloseCurlBrack {
                            Some(q + 1)
                        } else {
                            None
                        },
                        None => None,
                    }
                }
            },
            None => None,
        }
    }
}

/// `slot ( expression )`.
pub open spec fn spec_slot(toks: Seq<Token>, at: int) -> Option<int>
    decreases toks.len() - at, 16int,
{
    if kind_at(toks, at) == TokenKind::Slot && kind_at(toks, at + 1) == TokenKind::OpenParenth {
        match spec_expr_bp(toks, at + 2, 0) {
            Some(n) => if kind_at(toks, n) == TokenKind::CloseParenth {
                Some(n + 1)
            } else {
                None
            },
            None => None,
        }
    } else {
        None
    }
}

/// A template: entries up to a stopper (`}`, `@`, end of input, or a
/// closing tag).
pub open spec fn spec_template(src: Seq<u8>, toks: Seq<Token>, at: int) -> Option<int>
    decreases toks.len() - at, 18int,
{
    let k = kind_at(toks, at);
    if k == TokenKind::CloseCurlBrack || k == TokenKind::AtSymbol || k == TokenKind::EOF {
        Some(at)
    } else if k == TokenKind::OpenAngBrack {
        if kind_at(toks, at + 1) == TokenKind::Slash {
            Some(at)
        } else {
            match spec_tag(src, toks, at) {
                Some(n) => spec_template(src, toks, advance(at, n, toks.len() as int)),
                None => None,
            }
        }
    } else if k == TokenKind::For {
        match spec_for_loop(src, toks, at) {
            Some(n) => spec_template(src, toks, advance(at, n, toks.len() as int)),
            None => None,
        }
    } else if k == TokenKind::If {
        match spec_condition(src, toks, at) {
            Some(n) => spec_template(src, toks, advance(at, n, toks.len() as int)),
            None => None,
        }
    } else if k == TokenKind::Slot {
        match spec_slot(toks, at) {
            Some(n) => spec_template(src, toks, advance(at, n, toks.len() as int)),
            None => None,
        }
    } else if k == TokenKind::Comment {
        spec_template(src, toks, at + 1)
    } else {
        None
    }
}

/// A settings handler: `@event : callback`.
#[verifier::opaque]
pub open spec fn spec_handler(toks: Seq<Token>, at: int) -> Option<int>
    decreases toks.len() - at, 14int,
{
    if kind_at(toks, at) == TokenKind::AtSymbol && kind_at(toks, at + 1) == TokenKind::Identifier
        && kind_at(toks, at + 2) == TokenKind::Colon && kind_at(toks, at + 3)
        == TokenKind::Identifier {
        Some(at + 4)
    } else {
        None
    }
}

/// A class style: `. name { map }`.
#[verifier::opaque]
pub open spec fn spec_class(toks: Seq<Token>, at: int) -> Option<int>
    decreases toks.len() - at, 14int,
{
    if kind_at(toks, at) == TokenKind::Period && kind_at(toks, at + 1) == TokenKind::Identifier {
        spec_map(toks, at + 2)
    } else {
        None
    }
}

/// An id style: `# name { map }`.
#[verifier::opaque]
pub open spec fn spec_id(toks: Seq<Token>, at: int) -> Option<int>
    decreases toks.len() - at, 14int,
{
    if kind_at(toks, at) == TokenKind::Hashtag && kind_at(toks, at + 1) == TokenKind::Identifier {
        spec_map(toks, at + 2)
    } else {
        None
    }
}

/// The entries of a settings block, with optional commas between them, up
/// to and including `}`.
pub open spec fn spec_settings_items(toks: Seq<Token>, at: int) -> Option<int>
    decreases toks.len() - at, 17int,
{
    let k = kind_at(toks, at);
    if k == TokenKind::CloseCurlBrack {
        Some(at + 1)
    } else if k == TokenKind::EOF {
        None
    } else {
        let entry = if k == TokenKind::AtSymbol {
            spec_handler(toks, at)
        } else if k == TokenKind::Period {
            spec_class(toks, at)
        } else if k == TokenKind::Hashtag {
            spec_id(toks, at)
        } else if k == TokenKind::Comment {
            Some(at + 1)
        } else {
            None::<int>
        };
        match entry {
            Some(n) => {
                let n2 = if kind_at(toks, n) == TokenKind::Comma {
                    n + 1
                } else {
                    n
                };
                spec_settings_items(toks, advance(at, n2, toks.len() as int))
            },
            None => None,
        }
    }
}

/// A settings block: `@ settings {` — the identifier must slice to exactly
/// `settings` — then its entries.
pub open spec fn spec_settings(src: Seq<u8>, toks: Seq<Token>, at: int) -> Option<int>
    decreases toks.len() - at, 18int,
{
    if kind_at(toks, at) == TokenKind::AtSymbol && kind_at(toks, at + 1) == TokenKind::Identifier
        && kind_at(toks, at + 2) == TokenKind::OpenCurlBrack && slice_of_span(
        src,
        toks[at + 1].span,
    ) == crate::parser::settings::settings_bytes() {
        spec_settings_items(toks, at + 3)
    } else {
        None
    }
}

/// A whole source file: template entries and settings blocks up to end of
/// input. A stray closing tag at top level fails.
pub open spec fn spec_pax(src: Seq<u8>, toks: Seq<Token>, at: int) -> Option<int>
    decreases toks.len() - at, 20int,
{
    let k = kind_at(toks, at);
    if k == TokenKind::EOF {
        Some(at)
    } else if k == TokenKind::OpenAngBrack || k == TokenKind::For || k == TokenKind::If || k
        == TokenKind::Slot || k == TokenKind::Comment {
        if k == TokenKind::OpenAngBrack && kind_at(toks, at + 1) == TokenKind::Slash {
            None
        } else {
            match spec_template(src, toks, at) {
                Some(n) => spec_pax(src, toks, advance(at, n, toks.len() as int)),
                None => None,
            }
        }
    } else if k == TokenKind::AtSymbol {
        match spec_settings(src, toks, at) {
            Some(n) => spec_pax(src, toks, advance(at, n, toks.len() as int)),
            None => None,
        }
    } else {
        None
    }
}

/// The unit a unit token attaches; an arbitrary unit for any other kind.
pub open spec fn unit_of(k: TokenKind) -> Unit {
    if k == TokenKind::Pixels {
        Unit::Pixels
    } else if k == TokenKind::Percent {
        Unit::Percent
    } else if k == TokenKind::Radians {
        Unit::Radians
    } else {
        Unit::Degrees
    }
}

/// The binary operator an infix token kind stands for; an arbitrary one
/// for kinds that are no infix operator.
pub open spec fn binop_of(k: TokenKind) -> BinaryOp {
    if k == TokenKind::Or {
        BinaryOp::Or
    } else if k == TokenKind::And {
        BinaryOp::And
    } else if k == TokenKind::NotEq {
        BinaryOp::NotEq
    } else if k == TokenKind::LessOrEq {
        BinaryOp::LessOrEq
    } else if k == TokenKind::MoreOrEq {
        BinaryOp::MoreOrEq
    } else if k == TokenKind::CloseAngBrack {
        BinaryOp::LargerThan
    } else if k == TokenKind::OpenAngBrack {
        BinaryOp::SmallerThan
    } else if k == TokenKind::Eq {
        BinaryOp::Eq
    } else if k == TokenKind::Plus {
        BinaryOp::Add
    } else if k == TokenKind::Minus {
        BinaryOp::Sub
    } else if k == TokenKind::Asterisk {
        BinaryOp::Mult
    } else if k == TokenKind::Slash {
        BinaryOp::Div
    } else if k == TokenKind::Remainder {
        BinaryOp::Mod
    } else if k == TokenKind::Exp {
        BinaryOp::Exp
    } else {
        BinaryOp::Range
    }
}

// ---------------------------------------------------------------------------
// The constructed trees
// ---------------------------------------------------------------------------
//
// One tree function per rule, giving the shape of the node the rule builds
// at a position — leaf spans, boxed children, and vector children as
// sequences, each at the position the extent functions above give. A rule
// ensures that its result's shape equals its tree function's, so the
// parser's whole output is pinned; the value is unspecified where the
// extent function rejects, since no node is returned there.

/// The identifier spans of the variable path at `at`, in source order.
pub open spec fn spec_variable_tree(toks: Seq<Token>, at: int) -> Seq<Identifier>
    decreases toks.len() - at, 7int,
{
    if kind_at(toks, at) != TokenKind::Identifier {
        arbitrary()
    } else if kind_at(toks, at + 1) == TokenKind::Period {
        seq![Identifier(toks[at].span)] + spec_variable_tree(toks, at + 2)
    } else {
        seq![Identifier(toks[at].span)]
    }
}

/// The shapes of the expressions of the bracketed sequence whose items
/// start at `at`, in source order.
pub open spec fn spec_seq_items_tree(toks: Seq<Token>, at: int, close: TokenKind) -> Seq<ExprShape>
    decreases toks.len() - at, 10int,
{
    if kind_at(toks, at) == close {
        Seq::empty()
    } else if kind_at(toks, at) == TokenKind::EOF {
        arbitrary()
    } else {
        match spec_expr_bp(toks, at, 0) {
            Some(n) => {
                let n2 = if kind_at(toks, n) == TokenKind::Comma {
                    n + 1
                } else {
                    n
                };
                seq![spec_expr_tree(toks, at, 0)] + spec_seq_items_tree(
                    toks,
                    advance(at, n2, toks.len() as int),
                    close,
                )
            },
            None => arbitrary(),
        }
    }
}

/// The shape of the function call at `at`.
pub open spec fn spec_function_call_tree(toks: Seq<Token>, at: int) -> ValueShape
    decreases toks.len() - at, 7int,
{
    if kind_at(toks, at) == TokenKind::Identifier && kind_at(toks, at + 1)
        == TokenKind::OpenParenth {
        ValueShape::FunctionCall {
            name: Identifier(toks[at].span),
            arguments: spec_seq_items_tree(toks, at + 2, TokenKind::CloseParenth),
        }
    } else {
        arbitrary()
    }
}

/// The shape of the enum variant at `at`.
pub open spec fn spec_enum_variant_tree(toks: Seq<Token>, at: int) -> ValueShape
    decreases toks.len() - at, 7int,
{
    if kind_at(toks, at) == TokenKind::Identifier && kind_at(toks, at + 1) == TokenKind::PathSep
        && kind_at(toks, at + 2) == TokenKind::Identifier {
        ValueShape::EnumVariant {
            name: Identifier(toks[at].span),
            variant: Identifier(toks[at + 2].span),
            arguments: if kind_at(toks, at + 3) == TokenKind::OpenParenth {
                spec_seq_items_tree(toks, at + 4, TokenKind::CloseParenth)
            } else {
                Seq::empty()
            },
        }
    } else {
        arbitrary()
    }
}

/// The shapes of the entries of the map whose items start at `at`.
pub open spec fn spec_map_items_tree(toks: Seq<Token>, at: int) -> Seq<FieldShape>
    decreases toks.len() - at, 5int,
{
    if kind_at(toks, at) == TokenKind::Identifier {
        if kind_at(toks, at + 1) != TokenKind::Colon {
            arbitrary()
        } else {
            match spec_literal_or_wrapped(toks, at + 2) {
                Some(n) => {
                    let n2 = if kind_at(toks, n) == TokenKind::Comma {
                        n + 1
                    } else {
                        n
                    };
                    seq![
                        FieldShape::Field {
                            key: Identifier(toks[at].span),
                            value: spec_literal_or_wrapped_tree(toks, at + 2),
                        },
                    ] + spec_map_items_tree(toks, advance(at, n2, toks.len() as int))
                },
                None => arbitrary(),
            }
        }
    } else if kind_at(toks, at) == TokenKind::Comment {
        seq![FieldShape::Comment(Comment(toks[at].span))] + spec_map_items_tree(toks, at + 1)
    } else if kind_at(toks, at) == TokenKind::CloseCurlBrack {
        Seq::empty()
    } else {
        arbitrary()
    }
}

/// The shape of the object at `at`.
pub open spec fn spec_object_tree(toks: Seq<Token>, at: int) -> ValueShape
    decreases toks.len() - at, 7int,
{
    if kind_at(toks, at) == TokenKind::Identifier {
        if kind_at(toks, at + 1) == TokenKind::OpenCurlBrack {
            ValueShape::Object {
                name: Some(Identifier(toks[at].span)),
                fields: spec_map_items_tree(toks, at + 2),
            }
        } else {
            arbitrary()
        }
    } else {
        if kind_at(toks, at) == TokenKind::OpenCurlBrack {
            ValueShape::Object { name: None, fields: spec_map_items_tree(toks, at + 1) }
        } else {
            arbitrary()
        }
    }
}

/// The shape of the value at `at`.
pub open spec fn spec_value_tree(toks: Seq<Token>, at: int) -> ValueShape
    decreases toks.len() - at, 8int,
{
    let k = kind_at(toks, at);
    if k == TokenKind::Integer {
        ValueShape::Int(toks[at].span)
    } else if k == TokenKind::Float {
        ValueShape::Float(toks[at].span)
    } else if k == TokenKind::String {
        ValueShape::String(toks[at].span)
    } else if k == TokenKind::Identifier {
        let k1 = kind_at(toks, at + 1);
        if k1 == TokenKind::OpenParenth {
            spec_function_call_tree(toks, at)
        } else if k1 == TokenKind::PathSep {
            spec_enum_variant_tree(toks, at)
        } else if k1 == TokenKind::OpenCurlBrack && spec_map_next(toks, at) {
            spec_object_tree(toks, at)
        } else {
            ValueShape::Variable(spec_variable_tree(toks, at))
        }
    } else if k == TokenKind::OpenCurlBrack {
        spec_object_tree(toks, at)
    } else if k == TokenKind::OpenSquareBrack {
        ValueShape::List(spec_seq_items_tree(toks, at + 1, TokenKind::CloseSquareBrack))
    } else if k == TokenKind::OpenParenth {
        ValueShape::Tuple(spec_seq_items_tree(toks, at + 1, TokenKind::CloseParenth))
    } else {
        arbitrary()
    }
}

/// The shape of the literal-or-wrapped-expression result at `at`: the
/// braced expression itself, or the literal lifted into expression form.
#[verifier::opaque]
pub open spec fn spec_literal_or_wrapped_tree(toks: Seq<Token>, at: int) -> ExprShape
    decreases toks.len() - at, 12int,
{
    if kind_at(toks, at) == TokenKind::OpenCurlBrack && !spec_map_next(toks, at) {
        spec_expr_tree(toks, at + 1, 0)
    } else {
        match spec_value(toks, at) {
            Some(n) => {
                let numeric = kind_at(toks, at) == TokenKind::Integer || kind_at(toks, at)
                    == TokenKind::Float;
                if numeric && postfix_unit_kind(kind_at(toks, n)) {
                    ExprShape::WithUnit {
                        val: Box::new(ExprShape::Value(spec_value_tree(toks, at))),
                        unit: unit_of(kind_at(toks, n)),
                    }
                } else {
                    ExprShape::Value(spec_value_tree(toks, at))
                }
            },
            None => arbitrary(),
        }
    }
}

/// The shape of the expression at `at` with minimum binding power
/// `min_bp`: a prefix operand, folded through [`spec_pratt_tree`].
pub open spec fn spec_expr_tree(toks: Seq<Token>, at: int, min_bp: u8) -> ExprShape
    decreases toks.len() - at, 9int,
{
    let k = kind_at(toks, at);
    if k == TokenKind::Identifier || k == TokenKind::Integer || k == TokenKind::Float || k
        == TokenKind::OpenCurlBrack || k == TokenKind::String || k == TokenKind::OpenSquareBrack
        || k == TokenKind::OpenParenth {
        match spec_value(toks, at) {
            Some(n) => spec_pratt_tree(
                toks,
                advance(at, n, toks.len() as int),
                min_bp,
                ExprShape::Value(spec_value_tree(toks, at)),
            ),
            None => arbitrary(),
        }
    } else if k == TokenKind::Not || k == TokenKind::Minus {
        match spec_expr_bp(toks, at + 1, 17) {
            Some(n) => spec_pratt_tree(
                toks,
                advance(at, n, toks.len() as int),
                min_bp,
                ExprShape::Unary {
                    op: if k == TokenKind::Not {
                        UnaryOp::Not
                    } else {
                        UnaryOp::Neg
                    },
                    val: Box::new(spec_expr_tree(toks, at + 1, 17)),
                },
            ),
            None => arbitrary(),
        }
    } else {
        arbitrary()
    }
}

/// The Pratt fold from `at` over the accumulated operand `acc`: `acc`
/// itself where the fold stops, else the operator at `at` applied to `acc`
/// and folded on.
pub open spec fn spec_pratt_tree(toks: Seq<Token>, at: int, min_bp: u8, acc: ExprShape) -> ExprShape
    decreases toks.len() - at, 9int,
{
    let k = kind_at(toks, at);
    if postfix_unit_kind(k) {
        if 19u8 < min_bp {
            acc
        } else {
            spec_pratt_tree(
                toks,
                at + 1,
                min_bp,
                ExprShape::WithUnit { val: Box::new(acc), unit: unit_of(k) },
            )
        }
    } else if k == TokenKind::Slash && kind_at(toks, at + 1) == TokenKind::CloseAngBrack {
        acc
    } else if infix_kind(k) {
        let (lbp, rbp) = spec_infix_bp(k);
        if lbp < min_bp {
            acc
        } else {
            match spec_expr_bp(toks, at + 1, rbp) {
                Some(n) => spec_pratt_tree(
                    toks,
                    advance(at, n, toks.len() as int),
                    min_bp,
                    ExprShape::Binary {
                        left: Box::new(acc),
                        op: binop_of(k),
                        right: Box::new(spec_expr_tree(toks, at + 1, rbp)),
                    },
                ),
                None => arbitrary(),
            }
        }
    } else {
        acc
    }
}

/// Where no operator strong enough for `min_bp` continues the fold — no
/// operator kind at all, a closing tag's slash, or one whose left binding
/// power falls short — the fold's result is the accumulated operand
/// itself.
pub proof fn lemma_pratt_tree_stop(toks: Seq<Token>, at: int, min_bp: u8, acc: ExprShape)
    requires
        ({
            let k = kind_at(toks, at);
            ||| (!postfix_unit_kind(k) && !infix_kind(k))
            ||| (k == TokenKind::Slash && kind_at(toks, at + 1) == TokenKind::CloseAngBrack)
            ||| (postfix_unit_kind(k) && 19u8 < min_bp)
            ||| (infix_kind(k) && spec_infix_bp(k).0 < min_bp)
        }),
    ensures
        spec_pratt_tree(toks, at, min_bp, acc) == acc,
{
}

/// The shape of the attribute at `at`.
pub open spec fn spec_attribute_tree(toks: Seq<Token>, at: int) -> AttributeShape
    decreases toks.len() - at, 14int,
{
    let k = kind_at(toks, at);
    if k == TokenKind::AtSymbol {
        AttributeShape::Handler(
            Handler { key: Identifier(toks[at + 1].span), value: Identifier(toks[at + 3].span) },
        )
    } else if k == TokenKind::Bind {
        AttributeShape::Binding(
            Binding { key: Identifier(toks[at + 2].span), value: Identifier(toks[at + 4].span) },
        )
    } else if k == TokenKind::Identifier {
        if kind_at(toks, at + 1) == TokenKind::Assign {
            AttributeShape::Field {
                key: Identifier(toks[at].span),
                value: spec_literal_or_wrapped_tree(toks, at + 2),
            }
        } else {
            arbitrary()
        }
    } else {
        arbitrary()
    }
}

/// The shapes of the attributes from `at` up to the `>` or `/` ending the
/// attribute list, in source order.
pub open spec fn spec_attrs_tree(toks: Seq<Token>, at: int) -> Seq<AttributeShape>
    decreases toks.len() - at, 15int,
{
    let k = kind_at(toks, at);
    if k == TokenKind::CloseAngBrack || k == TokenKind::Slash {
        Seq::empty()
    } else if k == TokenKind::EOF {
        arbitrary()
    } else {
        match spec_attribute(toks, at) {
            Some(n) => seq![spec_attribute_tree(toks, at)] + spec_attrs_tree(
                toks,
                advance(at, n, toks.len() as int),
            ),
            None => arbitrary(),
        }
    }
}

/// The shape of the tag at `at`: its name, its attributes, and — on the
/// paired form — its body.
#[verifier::opaque]
pub open spec fn spec_tag_tree(src: Seq<u8>, toks: Seq<Token>, at: int) -> TemplateShape
    decreases toks.len() - at, 16int,
{
    if kind_at(toks, at) == TokenKind::OpenAngBrack && kind_at(toks, at + 1)
        == TokenKind::Identifier {
        TemplateShape::Tag {
            name: Identifier(toks[at + 1].span),
            attributes: spec_attrs_tree(toks, at + 2),
            body: match spec_attrs(toks, at + 2) {
                Some(p) => {
                    if kind_at(toks, p) == TokenKind::CloseAngBrack {
                        spec_template_tree(src, toks, advance(at, p + 1, toks.len() as int))
                    } else {
                        Seq::empty()
                    }
                },
                None => arbitrary(),
            },
        }
    } else {
        arbitrary()
    }
}

/// The shape of the loop at `at`: its pattern, source and body.
#[verifier::opaque]
pub open spec fn spec_for_loop_tree(src: Seq<u8>, toks: Seq<Token>, at: int) -> TemplateShape
    decreases toks.len() - at, 16int,
{
    let p = if kind_at(toks, at + 1) == TokenKind::OpenParenth {
        at + 6
    } else {
        at + 2
    };
    if kind_at(toks, at) == TokenKind::For {
        TemplateShape::Loop {
            pattern: if kind_at(toks, at + 1) == TokenKind::OpenParenth {
                MatchPattern::Tuple(Identifier(toks[at + 2].span), Identifier(toks[at + 4].span))
            } else {
                MatchPattern::Identifier(Identifier(toks[at + 1].span))
            },
            source: spec_expr_tree(toks, advance(at, p + 1, toks.len() as int), 0),
            body: match spec_expr_bp(toks, advance(at, p + 1, toks.len() as int), 0) {
                Some(n) => spec_template_tree(src, toks, advance(at, n + 1, toks.len() as int)),
                None => arbitrary(),
            },
        }
    } else {
        arbitrary()
    }
}

/// The shape of the conditional at `at`: its condition and body.
#[verifier::opaque]
pub open spec fn spec_condition_tree(src: Seq<u8>, toks: Seq<Token>, at: int) -> TemplateShape
    decreases toks.len() - at, 16int,
{
    if kind_at(toks, at) == TokenKind::If {
        TemplateShape::Conditional {
            condition: spec_expr_tree(toks, at + 1, 0),
            body: match spec_expr_bp(toks, at + 1, 0) {
                Some(n) => spec_template_tree(src, toks, advance(at, n + 1, toks.len() as int)),
                None => arbitrary(),
            },
        }
    } else {
        arbitrary()
    }
}

/// The shapes of the template entries from `at` up to a stopper, in source
/// order.
pub open spec fn spec_template_tree(src: Seq<u8>, toks: Seq<Token>, at: int) -> Seq<TemplateShape>
    decreases toks.len() - at, 18int,
{
    let k = kind_at(toks, at);
    if k == TokenKind::CloseCurlBrack || k == TokenKind::AtSymbol || k == TokenKind::EOF {
        Seq::empty()
    } else if k == TokenKind::OpenAngBrack {
        if kind_at(toks, at + 1) == TokenKind::Slash {
            Seq::empty()
        } else {
            match spec_tag(src, toks, at) {
                Some(n) => seq![spec_tag_tree(src, toks, at)] + spec_template_tree(
                    src,
                    toks,
                    advance(at, n, toks.len() as int),
                ),
                None => arbitrary(),
            }
        }
    } else if k == TokenKind::For {
        match spec_for_loop(src, toks, at) {
            Some(n) => seq![spec_for_loop_tree(src, toks, at)] + spec_template_tree(
                src,
                toks,
                advance(at, n, toks.len() as int),
            ),
            None => arbitrary(),
        }
    } else if k == TokenKind::If {
        match spec_condition(src, toks, at) {
            Some(n) => seq![spec_condition_tree(src, toks, at)] + spec_template_tree(
                src,
                toks,
                advance(at, n, toks.len() as int),
            ),
            None => arbitrary(),
        }
    } else if k == TokenKind::Slot {
        match spec_slot(toks, at) {
            Some(n) => seq![TemplateShape::Slot(spec_expr_tree(toks, at + 2, 0))]
                + spec_template_tree(src, toks, advance(at, n, toks.len() as int)),
            None => arbitrary(),
        }
    } else if k == TokenKind::Comment {
        seq![TemplateShape::Comment(Comment(toks[at].span))] + spec_template_tree(
            src,
            toks,
            at + 1,
        )
    } else {
        arbitrary()
    }
}

/// The shape of the class style at `at`.
#[verifier::opaque]
pub open spec fn spec_class_tree(toks: Seq<Token>, at: int) -> SettingsShape
    decreases toks.len() - at, 14int,
{
    if kind_at(toks, at) == TokenKind::Period && kind_at(toks, at + 1) == TokenKind::Identifier {
        SettingsShape::Class {
            name: Identifier(toks[at + 1].span),
            binding: if kind_at(toks, at + 2) == TokenKind::OpenCurlBrack {
                spec_map_items_tree(toks, at + 3)
            } else {
                arbitrary()
            },
        }
    } else {
        arbitrary()
    }
}

/// The shape of the id style at `at`.
#[verifier::opaque]
pub open spec fn spec_id_tree(toks: Seq<Token>, at: int) -> SettingsShape
    decreases toks.len() - at, 14int,
{
    if kind_at(toks, at) == TokenKind::Hashtag && kind_at(toks, at + 1) == TokenKind::Identifier {
        SettingsShape::Id {
            name: Identifier(toks[at + 1].span),
            binding: if kind_at(toks, at + 2) == TokenKind::OpenCurlBrack {
                spec_map_items_tree(toks, at + 3)
            } else {
                arbitrary()
            },
        }
    } else {
        arbitrary()
    }
}

/// The shapes of the settings entries from `at` up to the closing brace,
/// in source order.
pub open spec fn spec_settings_items_tree(toks: Seq<Token>, at: int) -> Seq<SettingsShape>
    decreases toks.len() - at, 17int,
{
    let k = kind_at(toks, at);
    if k == TokenKind::CloseCurlBrack {
        Seq::empty()
    } else if k == TokenKind::EOF {
        arbitrary()
    } else {
        let entry = if k == TokenKind::AtSymbol {
            spec_handler(toks, at)
        } else if k == TokenKind::Period {
            spec_class(toks, at)
        } else if k == TokenKind::Hashtag {
            spec_id(toks, at)
        } else if k == TokenKind::Comment {
            Some(at + 1)
        } else {
            None::<int>
        };
        let head = if k == TokenKind::AtSymbol {
            SettingsShape::Handler(
                Handler {
                    key: Identifier(toks[at + 1].span),
                    value: Identifier(toks[at + 3].span),
                },
            )
        } else if k == TokenKind::Period {
            spec_class_tree(toks, at)
        } else if k == TokenKind::Hashtag {
            spec_id_tree(toks, at)
        } else {
            SettingsShape::Comment(Comment(toks[at].span))
        };
        match entry {
            Some(n) => {
                let n2 = if kind_at(toks, n) == TokenKind::Comma {
                    n + 1
                } else {
                    n
                };
                seq![head] + spec_settings_items_tree(toks, advance(at, n2, toks.len() as int))
            },
            None => arbitrary(),
        }
    }
}

/// The shapes of a whole source file's template entries and settings
/// entries, each in source order.
pub open spec fn spec_pax_tree(src: Seq<u8>, toks: Seq<Token>, at: int) -> (
    Seq<TemplateShape>,
    Seq<SettingsShape>,
)
    decreases toks.len() - at, 20int,
{
    let k = kind_at(toks, at);
    if k == TokenKind::EOF {
        (Seq::empty(), Seq::empty())
    } else if k == TokenKind::OpenAngBrack || k == TokenKind::For || k == TokenKind::If || k
        == TokenKind::Slot || k == TokenKind::Comment {
        if k == TokenKind::OpenAngBrack && kind_at(toks, at + 1) == TokenKind::Slash {
            arbitrary()
        } else {
            match spec_template(src, toks, at) {
                Some(n) => {
                    let rest = spec_pax_tree(src, toks, advance(at, n, toks.len() as int));
                    (spec_template_tree(src, toks, at) + rest.0, rest.1)
                },
                None => arbitrary(),
            }
        }
    } else if k == TokenKind::AtSymbol {
        match spec_settings(src, toks, at) {
            Some(n) => {
                let rest = spec_pax_tree(src, toks, advance(at, n, toks.len() as int));
                (rest.0, spec_settings_items_tree(toks, at + 3) + rest.1)
            },
            None => arbitrary(),
        }
    } else {
        arbitrary()
    }
}

} // verus!
