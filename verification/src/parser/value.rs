//! The value rule and its satellites: variable paths, enum variants,
//! function calls and bracketed sequences.

use vstd::prelude::*;

use crate::ast::common::Identifier;
use crate::ast::common::identifier_wf;
use crate::ast::expression::EnumVariant;
use crate::ast::expression::Expression;
use crate::ast::expression::FunctionCall;
use crate::ast::expression::Value;
use crate::ast::expression::enum_variant_wf;
use crate::ast::expression::expression_wf;
use crate::ast::expression::function_call_wf;
use crate::ast::expression::value_wf;
use crate::parser::Parser;
use crate::parser::errors::PaxParseError;
use crate::parser::grammar::advance;
use crate::parser::grammar::spec_enum_variant;
use crate::parser::grammar::spec_seq_items;
use crate::ast::shape::ExprShape;
use crate::parser::grammar::spec_expr_tree;
use crate::parser::grammar::spec_function_call;
use crate::parser::grammar::spec_sequence;
use crate::parser::grammar::spec_value;
use crate::parser::grammar::spec_variable;
use crate::ast::shape::exprs_shape;
use crate::ast::shape::value_shape;
use crate::ast::shape::lemma_exprs_shape_push;
use crate::parser::grammar::spec_enum_variant_tree;
use crate::parser::grammar::spec_function_call_tree;
use crate::parser::grammar::spec_seq_items_tree;
use crate::parser::grammar::spec_value_tree;
use crate::parser::grammar::spec_variable_tree;
use crate::token::TokenKind;

verus! {

/// The token kinds on which the value rule can start.
pub open spec fn value_startable(k: TokenKind) -> bool {
    ||| k == TokenKind::Integer
    ||| k == TokenKind::Float
    ||| k == TokenKind::Identifier
    ||| k == TokenKind::String
    ||| k == TokenKind::OpenCurlBrack
    ||| k == TokenKind::OpenSquareBrack
    ||| k == TokenKind::OpenParenth
}

impl<'src> Parser<'src> {
    /// Parses one value, dispatching on the next token: a number, a
    /// string, a braced object, a bracketed list, a parenthesised tuple,
    /// or — for an identifier — a function call, an enum variant, a named
    /// object or a variable path, told apart by lookahead.
    pub fn value(&mut self) -> (r: Result<Value, PaxParseError>)
        requires
            old(self).wf(),
        ensures
            final(self).advanced_from(old(self)),
            r matches Ok(v) ==> value_wf(v, old(self).source()) && final(self).at() > old(
                self,
            ).at(),
            !value_startable(old(self).peek_kind()) ==> r is Err,
            old(self).peek_kind() == TokenKind::Integer ==> r == Ok::<Value, PaxParseError>(
                Value::Int(old(self).cur().span),
            ) && final(self).at() == old(self).at() + 1,
            old(self).peek_kind() == TokenKind::Float ==> r == Ok::<Value, PaxParseError>(
                Value::Float(old(self).cur().span),
            ) && final(self).at() == old(self).at() + 1,
            old(self).peek_kind() == TokenKind::String ==> r == Ok::<Value, PaxParseError>(
                Value::String(old(self).cur().span),
            ) && final(self).at() == old(self).at() + 1,
            (old(self).peek_kind() == TokenKind::Identifier && old(self).peek_kind_at(1)
                == TokenKind::OpenParenth) ==> (r matches Ok(v) ==> v is FunctionCall),
            (old(self).peek_kind() == TokenKind::Identifier && old(self).peek_kind_at(1)
                == TokenKind::PathSep) ==> (r matches Ok(v) ==> v is EnumVariant),
            (old(self).peek_kind() == TokenKind::Identifier && old(self).peek_kind_at(1)
                != TokenKind::OpenParenth && old(self).peek_kind_at(1) != TokenKind::PathSep && !(
            old(self).peek_kind_at(1) == TokenKind::OpenCurlBrack
                && old(self).spec_is_map_next())) ==> (r matches Ok(v) ==> v is Variable),
            old(self).peek_kind() == TokenKind::OpenCurlBrack ==> (r matches Ok(v) ==> v is Object),
            old(self).peek_kind() == TokenKind::OpenSquareBrack ==> (r matches Ok(v) ==> v is List),
            old(self).peek_kind() == TokenKind::OpenParenth ==> (r matches Ok(v) ==> v is Tuple),
            (old(self).peek_kind() == TokenKind::Identifier && old(self).peek_kind_at(1)
                == TokenKind::OpenCurlBrack && old(self).spec_is_map_next()) ==> (r matches Ok(v)
                ==> v is Object),
            spec_value(old(self).toks(), old(self).at()) == (if r is Ok {
                Some(final(self).at())
            } else {
                None::<int>
            }),
            r matches Ok(v) ==> value_shape(v) == spec_value_tree(old(self).toks(), old(self).at()),
        decreases old(self).toks().len() - old(self).at(), 9int,
    {
        self.push_context("Value (5px, {..})");
        let r = self.value_rule();
        self.pop_context();
        proof {
            assert(final(self).ctx() =~= old(self).ctx());
        }
        r
    }

    fn value_rule(&mut self) -> (r: Result<Value, PaxParseError>)
        requires
            old(self).wf(),
        ensures
            final(self).source() == old(self).source(),
            final(self).toks() == old(self).toks(),
            final(self).ctx() == old(self).ctx(),
            old(self).at() <= final(self).at() <= final(self).toks().len(),
            r matches Ok(v) ==> value_wf(v, old(self).source()) && final(self).at() > old(
                self,
            ).at(),
            !value_startable(old(self).peek_kind()) ==> r is Err,
            old(self).peek_kind() == TokenKind::Integer ==> r == Ok::<Value, PaxParseError>(
                Value::Int(old(self).cur().span),
            ) && final(self).at() == old(self).at() + 1,
            old(self).peek_kind() == TokenKind::Float ==> r == Ok::<Value, PaxParseError>(
                Value::Float(old(self).cur().span),
            ) && final(self).at() == old(self).at() + 1,
            old(self).peek_kind() == TokenKind::String ==> r == Ok::<Value, PaxParseError>(
                Value::String(old(self).cur().span),
            ) && final(self).at() == old(self).at() + 1,
            (old(self).peek_kind() == TokenKind::Identifier && old(self).peek_kind_at(1)
                == TokenKind::OpenParenth) ==> (r matches Ok(v) ==> v is FunctionCall),
            (old(self).peek_kind() == TokenKind::Identifier && old(self).peek_kind_at(1)
                == TokenKind::PathSep) ==> (r matches Ok(v) ==> v is EnumVariant),
            (old(self).peek_kind() == TokenKind::Identifier && old(self).peek_kind_at(1)
                != TokenKind::OpenParenth && old(self).peek_kind_at(1) != TokenKind::PathSep && !(
            old(self).peek_kind_at(1) == TokenKind::OpenCurlBrack
                && old(self).spec_is_map_next())) ==> (r matches Ok(v) ==> v is Variable),
            old(self).peek_kind() == TokenKind::OpenCurlBrack ==> (r matches Ok(v) ==> v is Object),
            old(self).peek_kind() == TokenKind::OpenSquareBrack ==> (r matches Ok(v) ==> v is List),
            old(self).peek_kind() == TokenKind::OpenParenth ==> (r matches Ok(v) ==> v is Tuple),
            (old(self).peek_kind() == TokenKind::Identifier && old(self).peek_kind_at(1)
                == TokenKind::OpenCurlBrack && old(self).spec_is_map_next()) ==> (r matches Ok(v)
                ==> v is Object),
            spec_value(old(self).toks(), old(self).at()) == (if r is Ok {
                Some(final(self).at())
            } else {
                None::<int>
            }),
            r matches Ok(v) ==> value_shape(v) == spec_value_tree(old(self).toks(), old(self).at()),
        decreases old(self).toks().len() - old(self).at(), 8int,
    {
        let k = self.peek_token();
        if k == TokenKind::Integer {
            Ok(Value::Int(self.next_token().span))
        } else if k == TokenKind::Float {
            Ok(Value::Float(self.next_token().span))
        } else if k == TokenKind::Identifier {
            let k1 = self.peek_nth_token(1);
            if k1 == TokenKind::OpenParenth {
                Ok(Value::FunctionCall(self.function_call()?))
            } else if k1 == TokenKind::PathSep {
                Ok(Value::EnumVariant(self.enum_variant()?))
            } else if k1 == TokenKind::OpenCurlBrack && self.is_map_next() {
                Ok(Value::Object(self.object()?))
            } else {
                Ok(Value::Variable(self.variable()?))
            }
        } else if k == TokenKind::String {
            Ok(Value::String(self.next_token().span))
        } else if k == TokenKind::OpenCurlBrack {
            Ok(Value::Object(self.object()?))
        } else if k == TokenKind::OpenSquareBrack {
            Ok(
                Value::List(
                    self.sequence_enclosed_in(
                        TokenKind::OpenSquareBrack,
                        TokenKind::CloseSquareBrack,
                    )?,
                ),
            )
        } else if k == TokenKind::OpenParenth {
            Ok(
                Value::Tuple(
                    self.sequence_enclosed_in(TokenKind::OpenParenth, TokenKind::CloseParenth)?,
                ),
            )
        } else {
            Err(
                self.error(
                    &[
                        TokenKind::Integer,
                        TokenKind::Float,
                        TokenKind::Identifier,
                        TokenKind::String,
                        TokenKind::OpenCurlBrack,
                        TokenKind::OpenSquareBrack,
                        TokenKind::OpenParenth,
                    ],
                ),
            )
        }
    }

    /// Parses a dotted variable path: one or more identifiers separated by
    /// periods. The path is never empty.
    pub fn variable(&mut self) -> (r: Result<Vec<Identifier>, PaxParseError>)
        requires
            old(self).wf(),
        ensures
            final(self).advanced_from(old(self)),
            r matches Ok(path) ==> path@.len() >= 1 && (forall|i: int|
                0 <= i < path@.len() ==> identifier_wf(#[trigger] path@[i], old(self).source()))
                && final(self).at() > old(self).at() && path@[0].0 == old(self).cur().span,
            old(self).peek_kind() != TokenKind::Identifier ==> r is Err,
            spec_variable(old(self).toks(), old(self).at()) == (if r is Ok {
                Some(final(self).at())
            } else {
                None::<int>
            }),
            r matches Ok(path) ==> path@ == spec_variable_tree(old(self).toks(), old(self).at()),
        decreases old(self).toks().len() - old(self).at(), 7int,
    {
        self.push_context("Variable");
        let r = self.variable_rule();
        self.pop_context();
        proof {
            assert(final(self).ctx() =~= old(self).ctx());
        }
        r
    }

    fn variable_rule(&mut self) -> (r: Result<Vec<Identifier>, PaxParseError>)
        requires
            old(self).wf(),
        ensures
            final(self).source() == old(self).source(),
            final(self).toks() == old(self).toks(),
            final(self).ctx() == old(self).ctx(),
            old(self).at() <= final(self).at() <= final(self).toks().len(),
            r matches Ok(path) ==> path@.len() >= 1 && (forall|i: int|
                0 <= i < path@.len() ==> identifier_wf(#[trigger] path@[i], old(self).source()))
                && final(self).at() > old(self).at() && path@[0].0 == old(self).cur().span,
            old(self).peek_kind() != TokenKind::Identifier ==> r is Err,
            spec_variable(old(self).toks(), old(self).at()) == (if r is Ok {
                Some(final(self).at())
            } else {
                None::<int>
            }),
            r matches Ok(path) ==> path@ == spec_variable_tree(old(self).toks(), old(self).at()),
    {
        let mut var_path: Vec<Identifier> = Vec::new();
        loop
            invariant_except_break
                self.wf(),
                old(self).wf(),
                self.advanced_from(old(self)),
                forall|i: int|
                    0 <= i < var_path@.len() ==> identifier_wf(
                        #[trigger] var_path@[i],
                        old(self).source(),
                    ),
                var_path@.len() >= 1 ==> var_path@[0].0 == old(self).cur().span && self.at() > old(
                    self,
                ).at() && old(self).peek_kind() == TokenKind::Identifier,
                var_path@.len() == 0 ==> self.at() == old(self).at(),
                spec_variable(self.toks(), old(self).at()) == spec_variable(
                    self.toks(),
                    self.at(),
                ),
                spec_variable(self.toks(), self.at()) is Some ==> spec_variable_tree(
                    self.toks(),
                    old(self).at(),
                ) == var_path@ + spec_variable_tree(self.toks(), self.at()),
            ensures
                self.wf(),
                self.advanced_from(old(self)),
                var_path@.len() >= 1,
                forall|i: int|
                    0 <= i < var_path@.len() ==> identifier_wf(
                        #[trigger] var_path@[i],
                        old(self).source(),
                    ),
                var_path@[0].0 == old(self).cur().span,
                self.at() > old(self).at(),
                old(self).peek_kind() == TokenKind::Identifier,
                spec_variable(self.toks(), old(self).at()) == Some(self.at() as int),
                var_path@ == spec_variable_tree(self.toks(), old(self).at()),
            decreases self.toks().len() - self.at(),
        {
            let ghost head = self.at();
            let ghost acc0 = var_path@;
            let ident = self.expect(TokenKind::Identifier)?;
            var_path.push(Identifier(ident.span));
            if self.next_token_if(TokenKind::Period).is_none() {
                proof {
                    assert(spec_variable_tree(self.toks(), head) =~= seq![Identifier(ident.span)]);
                    assert(var_path@ =~= acc0 + spec_variable_tree(self.toks(), head));
                }
                break;
            }
            proof {
                assert(spec_variable_tree(self.toks(), head) =~= seq![Identifier(ident.span)]
                    + spec_variable_tree(self.toks(), self.at()));
                assert(acc0 + spec_variable_tree(self.toks(), head) =~= var_path@
                    + spec_variable_tree(self.toks(), self.at()));
            }
        }
        Ok(var_path)
    }

    /// Parses `Name::Variant`, optionally followed by parenthesised
    /// arguments.
    pub fn enum_variant(&mut self) -> (r: Result<EnumVariant, PaxParseError>)
        requires
            old(self).wf(),
        ensures
            final(self).advanced_from(old(self)),
            r matches Ok(ev) ==> enum_variant_wf(ev, old(self).source()) && final(self).at() > old(
                self,
            ).at() && ev.name.0 == old(self).cur().span,
            r matches Ok(ev) ==> ev.variant.0 == old(self).cur_at(2).span,
            old(self).peek_kind() != TokenKind::Identifier ==> r is Err,
            spec_enum_variant(old(self).toks(), old(self).at()) == (if r is Ok {
                Some(final(self).at())
            } else {
                None::<int>
            }),
            r matches Ok(ev) ==> value_shape(Value::EnumVariant(ev)) == spec_enum_variant_tree(
                old(self).toks(),
                old(self).at(),
            ),
        decreases old(self).toks().len() - old(self).at(), 7int,
    {
        let v = self.expect_sequence(
            &[TokenKind::Identifier, TokenKind::PathSep, TokenKind::Identifier],
        )?;
        let name = v[0];
        let variant = v[2];
        let args = if self.peek_token() == TokenKind::OpenParenth {
            self.sequence_enclosed_in(TokenKind::OpenParenth, TokenKind::CloseParenth)?
        } else {
            Vec::new()
        };
        Ok(
            EnumVariant {
                name: Identifier(name.span),
                variant: Identifier(variant.span),
                arguments: args,
            },
        )
    }

    /// Parses `name(arguments...)`.
    pub fn function_call(&mut self) -> (r: Result<FunctionCall, PaxParseError>)
        requires
            old(self).wf(),
        ensures
            final(self).advanced_from(old(self)),
            r matches Ok(fc) ==> function_call_wf(fc, old(self).source()) && final(self).at() > old(
                self,
            ).at() && fc.name.0 == old(self).cur().span,
            old(self).peek_kind() != TokenKind::Identifier ==> r is Err,
            spec_function_call(old(self).toks(), old(self).at()) == (if r is Ok {
                Some(final(self).at())
            } else {
                None::<int>
            }),
            r matches Ok(fc) ==> value_shape(Value::FunctionCall(fc)) == spec_function_call_tree(
                old(self).toks(),
                old(self).at(),
            ),
        decreases old(self).toks().len() - old(self).at(), 7int,
    {
        self.push_context("Function call");
        let r = self.function_call_rule();
        self.pop_context();
        proof {
            assert(final(self).ctx() =~= old(self).ctx());
        }
        r
    }

    fn function_call_rule(&mut self) -> (r: Result<FunctionCall, PaxParseError>)
        requires
            old(self).wf(),
        ensures
            final(self).source() == old(self).source(),
            final(self).toks() == old(self).toks(),
            final(self).ctx() == old(self).ctx(),
            old(self).at() <= final(self).at() <= final(self).toks().len(),
            r matches Ok(fc) ==> function_call_wf(fc, old(self).source()) && final(self).at() > old(
                self,
            ).at() && fc.name.0 == old(self).cur().span,
            old(self).peek_kind() != TokenKind::Identifier ==> r is Err,
            spec_function_call(old(self).toks(), old(self).at()) == (if r is Ok {
                Some(final(self).at())
            } else {
                None::<int>
            }),
            r matches Ok(fc) ==> value_shape(Value::FunctionCall(fc)) == spec_function_call_tree(
                old(self).toks(),
                old(self).at(),
            ),
        decreases old(self).toks().len() - old(self).at(), 6int,
    {
        let ident = self.expect(TokenKind::Identifier)?;
        let arguments = self.sequence_enclosed_in(TokenKind::OpenParenth, TokenKind::CloseParenth)?;
        Ok(FunctionCall { name: Identifier(ident.span), arguments })
    }

    /// Parses a sequence of expressions between `open` and `close`, with
    /// commas as optional separators and a trailing comma allowed. The
    /// sequence may be empty.
    pub(crate) fn sequence_enclosed_in(&mut self, open: TokenKind, close: TokenKind) -> (r: Result<
        Vec<Expression>,
        PaxParseError,
    >)
        requires
            old(self).wf(),
            open != TokenKind::EOF,
            close != TokenKind::EOF,
        ensures
            final(self).advanced_from(old(self)),
            r matches Ok(es) ==> (forall|i: int|
                0 <= i < es@.len() ==> expression_wf(#[trigger] es@[i], old(self).source()))
                && final(self).at() > old(self).at(),
            old(self).peek_kind() != open ==> r is Err,
            r matches Ok(es) ==> (es@.len() == 0 <==> old(self).peek_kind_at(1) == close),
            spec_sequence(old(self).toks(), old(self).at(), open, close) == (if r is Ok {
                Some(final(self).at())
            } else {
                None::<int>
            }),
            r matches Ok(es) ==> exprs_shape(es@) == spec_seq_items_tree(
                old(self).toks(),
                old(self).at() + 1,
                close,
            ),
        decreases old(self).toks().len() - old(self).at(), 7int,
    {
        self.push_context("Sequence ([foo, 5px], or (foo, 5px))");
        let r = self.sequence_rule(open, close);
        self.pop_context();
        proof {
            assert(final(self).ctx() =~= old(self).ctx());
        }
        r
    }

    fn sequence_rule(&mut self, open: TokenKind, close: TokenKind) -> (r: Result<
        Vec<Expression>,
        PaxParseError,
    >)
        requires
            old(self).wf(),
            open != TokenKind::EOF,
            close != TokenKind::EOF,
        ensures
            final(self).source() == old(self).source(),
            final(self).toks() == old(self).toks(),
            final(self).ctx() == old(self).ctx(),
            old(self).at() <= final(self).at() <= final(self).toks().len(),
            r matches Ok(es) ==> (forall|i: int|
                0 <= i < es@.len() ==> expression_wf(#[trigger] es@[i], old(self).source()))
                && final(self).at() > old(self).at(),
            old(self).peek_kind() != open ==> r is Err,
            r matches Ok(es) ==> (es@.len() == 0 <==> old(self).peek_kind_at(1) == close),
            spec_sequence(old(self).toks(), old(self).at(), open, close) == (if r is Ok {
                Some(final(self).at())
            } else {
                None::<int>
            }),
            r matches Ok(es) ==> exprs_shape(es@) == spec_seq_items_tree(
                old(self).toks(),
                old(self).at() + 1,
                close,
            ),
        decreases old(self).toks().len() - old(self).at(), 6int,
    {
        self.expect(open)?;
        proof {
            assert(spec_sequence(self.toks(), old(self).at(), open, close) == spec_seq_items(
                self.toks(),
                old(self).at() + 1,
                close,
            ));
        }
        let mut entries: Vec<Expression> = Vec::new();
        loop
            invariant_except_break
                self.wf(),
                old(self).wf(),
                self.advanced_from(old(self)),
                self.at() > old(self).at(),
                entries@.len() == 0 ==> self.at() == old(self).at() + 1,
                entries@.len() > 0 ==> old(self).peek_kind_at(1) != close,
                old(self).peek_kind() == open,
                close != TokenKind::EOF,
                spec_sequence(self.toks(), old(self).at(), open, close) == spec_seq_items(
                    self.toks(),
                    self.at(),
                    close,
                ),
                spec_seq_items(self.toks(), self.at(), close) is Some ==> spec_seq_items_tree(
                    self.toks(),
                    old(self).at() + 1,
                    close,
                ) == exprs_shape(entries@) + spec_seq_items_tree(self.toks(), self.at(), close),
                forall|i: int|
                    0 <= i < entries@.len() ==> expression_wf(
                        #[trigger] entries@[i],
                        old(self).source(),
                    ),
            ensures
                self.wf(),
                self.advanced_from(old(self)),
                self.at() > old(self).at(),
                entries@.len() == 0 ==> old(self).peek_kind_at(1) == close,
                entries@.len() > 0 ==> old(self).peek_kind_at(1) != close,
                spec_sequence(self.toks(), old(self).at(), open, close) == Some(self.at() as int),
                exprs_shape(entries@) == spec_seq_items_tree(
                    self.toks(),
                    old(self).at() + 1,
                    close,
                ),
                forall|i: int|
                    0 <= i < entries@.len() ==> expression_wf(
                        #[trigger] entries@[i],
                        old(self).source(),
                    ),
            decreases self.toks().len() - self.at(),
        {
            let ghost dv0 = exprs_shape(entries@);
            if self.next_token_if(close).is_some() {
                proof {
                    assert(spec_seq_items_tree(self.toks(), self.at() - 1, close)
                        =~= Seq::<ExprShape>::empty());
                    assert(dv0 + Seq::<ExprShape>::empty() =~= dv0);
                }
                break;
            }
            let ghost head = self.at();
            let ghost entries0 = entries@;
            let e = self.expression()?;
            let ghost ge = e;
            entries.push(e);
            let _ = self.next_token_if(TokenKind::Comma);
            proof {
                assert(advance(head, self.at(), self.toks().len() as int) == self.at());
                lemma_exprs_shape_push(entries0, ge);
                assert(spec_seq_items_tree(self.toks(), head, close) == seq![
                    spec_expr_tree(self.toks(), head, 0),
                ] + spec_seq_items_tree(self.toks(), self.at(), close));
                assert(dv0 + spec_seq_items_tree(self.toks(), head, close) =~= exprs_shape(
                    entries@,
                ) + spec_seq_items_tree(self.toks(), self.at(), close));
            }
        }
        Ok(entries)
    }
}

} // verus!
