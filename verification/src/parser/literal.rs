//! The literal rule: a value optionally tagged with a unit.

use vstd::prelude::*;

use crate::ast::expression::Literal;
use crate::ast::expression::Unit;
use crate::ast::expression::Value;
use crate::ast::expression::literal_wf;
use crate::parser::Parser;
use crate::parser::errors::PaxParseError;
use crate::parser::grammar::postfix_unit_kind;
use crate::parser::grammar::unit_of;
use crate::parser::grammar::spec_literal;
use crate::ast::shape::value_shape;
use crate::parser::grammar::spec_value_tree;
use crate::parser::value::value_startable;
use crate::token::TokenKind;

verus! {

impl<'src> Parser<'src> {
    /// Parses a literal: a value, then — only when the value is numeric
    /// and the next token is a unit — that unit. So the unit of a literal
    /// is `None` unless its value is `Int` or `Float`.
    pub fn literal(&mut self) -> (r: Result<Literal, PaxParseError>)
        requires
            old(self).wf(),
        ensures
            final(self).advanced_from(old(self)),
            r matches Ok(l) ==> literal_wf(l, old(self).source()) && final(self).at() > old(
                self,
            ).at(),
            !value_startable(old(self).peek_kind()) ==> r is Err,
            old(self).peek_kind() == TokenKind::Integer ==> r == Ok::<Literal, PaxParseError>(
                Literal {
                    value: Value::Int(old(self).cur().span),
                    unit: if postfix_unit_kind(old(self).peek_kind_at(1)) {
                        Some(unit_of(old(self).peek_kind_at(1)))
                    } else {
                        None
                    },
                },
            ),
            old(self).peek_kind() == TokenKind::Float ==> r == Ok::<Literal, PaxParseError>(
                Literal {
                    value: Value::Float(old(self).cur().span),
                    unit: if postfix_unit_kind(old(self).peek_kind_at(1)) {
                        Some(unit_of(old(self).peek_kind_at(1)))
                    } else {
                        None
                    },
                },
            ),
            spec_literal(old(self).toks(), old(self).at()) == (if r is Ok {
                Some(final(self).at())
            } else {
                None::<int>
            }),
            r matches Ok(l) ==> value_shape(l.value) == spec_value_tree(
                old(self).toks(),
                old(self).at(),
            ),
        decreases old(self).toks().len() - old(self).at(), 11int,
    {
        self.push_context("Literal (var, 5px, [...], {..})");
        let r = self.literal_rule();
        self.pop_context();
        proof {
            assert(final(self).ctx() =~= old(self).ctx());
        }
        r
    }

    fn literal_rule(&mut self) -> (r: Result<Literal, PaxParseError>)
        requires
            old(self).wf(),
        ensures
            final(self).source() == old(self).source(),
            final(self).toks() == old(self).toks(),
            final(self).ctx() == old(self).ctx(),
            old(self).at() <= final(self).at() <= final(self).toks().len(),
            r matches Ok(l) ==> literal_wf(l, old(self).source()) && final(self).at() > old(
                self,
            ).at(),
            !value_startable(old(self).peek_kind()) ==> r is Err,
            old(self).peek_kind() == TokenKind::Integer ==> r == Ok::<Literal, PaxParseError>(
                Literal {
                    value: Value::Int(old(self).cur().span),
                    unit: if postfix_unit_kind(old(self).peek_kind_at(1)) {
                        Some(unit_of(old(self).peek_kind_at(1)))
                    } else {
                        None
                    },
                },
            ),
            old(self).peek_kind() == TokenKind::Float ==> r == Ok::<Literal, PaxParseError>(
                Literal {
                    value: Value::Float(old(self).cur().span),
                    unit: if postfix_unit_kind(old(self).peek_kind_at(1)) {
                        Some(unit_of(old(self).peek_kind_at(1)))
                    } else {
                        None
                    },
                },
            ),
            spec_literal(old(self).toks(), old(self).at()) == (if r is Ok {
                Some(final(self).at())
            } else {
                None::<int>
            }),
            r matches Ok(l) ==> value_shape(l.value) == spec_value_tree(
                old(self).toks(),
                old(self).at(),
            ),
        decreases old(self).toks().len() - old(self).at(), 10int,
    {
        // most literals are just the values allowed in an expression; the
        // only possible addition is a postfix unit on an int or float
        let value = self.value()?;

        let is_numeric = matches!(value, Value::Int(_) | Value::Float(_));

        let k = self.peek_token();
        let unit: Option<Unit> = if is_numeric && k == TokenKind::Pixels {
            let _ = self.next_token();
            Some(Unit::Pixels)
        } else if is_numeric && k == TokenKind::Percent {
            let _ = self.next_token();
            Some(Unit::Percent)
        } else if is_numeric && k == TokenKind::Radians {
            let _ = self.next_token();
            Some(Unit::Radians)
        } else if is_numeric && k == TokenKind::Degrees {
            let _ = self.next_token();
            Some(Unit::Degrees)
        } else {
            None
        };

        Ok(Literal { value, unit })
    }
}

} // verus!
