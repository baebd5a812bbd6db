//! The Pratt expression core: prefix, infix and unit-postfix operators
//! parsed by tracking a minimum binding power per recursive call.

use vstd::prelude::*;

use crate::ast::expression::BinaryOp;
use crate::ast::expression::Expression;
use crate::ast::expression::Op;
use crate::ast::expression::UnaryOp;
use crate::ast::expression::Value;
use crate::ast::expression::Unit;
use crate::ast::expression::expression_wf;
use crate::parser::Parser;
use crate::parser::errors::PaxParseError;
use crate::parser::grammar::advance;
use crate::parser::grammar::spec_expr_bp;
use crate::parser::grammar::spec_literal_or_wrapped;
use crate::parser::grammar::spec_pratt;
use crate::ast::shape::ExprShape;
use crate::ast::shape::expr_shape;
use crate::ast::shape::value_shape;
use crate::parser::grammar::spec_expr_tree;
use crate::parser::grammar::spec_literal_or_wrapped_tree;
use crate::parser::grammar::spec_pratt_tree;
use crate::parser::grammar::spec_value_tree;
use crate::parser::grammar::binop_of;
use crate::parser::grammar::lemma_pratt_tree_stop;
use crate::parser::grammar::unit_of;
use crate::parser::value::value_startable;
use crate::token::TokenKind;

verus! {

/// The token kinds on which an expression can start: everything a value
/// can start on, plus the two prefix operators.
pub open spec fn expression_startable(k: TokenKind) -> bool {
    value_startable(k) || k == TokenKind::Not || k == TokenKind::Minus
}

/// The token kinds the Pratt loop treats as operators; any other kind ends
/// the expression. The `/` of a closing tag is among them and is resolved
/// by one more token of lookahead.
pub open spec fn pratt_op_kind(k: TokenKind) -> bool {
    ||| k == TokenKind::Pixels
    ||| k == TokenKind::Percent
    ||| k == TokenKind::Degrees
    ||| k == TokenKind::Radians
    ||| k == TokenKind::Plus
    ||| k == TokenKind::Minus
    ||| k == TokenKind::Asterisk
    ||| k == TokenKind::Remainder
    ||| k == TokenKind::Range
    ||| k == TokenKind::Eq
    ||| k == TokenKind::LessOrEq
    ||| k == TokenKind::MoreOrEq
    ||| k == TokenKind::NotEq
    ||| k == TokenKind::Or
    ||| k == TokenKind::And
    ||| k == TokenKind::CloseAngBrack
    ||| k == TokenKind::OpenAngBrack
    ||| k == TokenKind::Exp
    ||| k == TokenKind::Slash
}

/// The binding powers of a binary operator, left and right. Comparison
/// binds tighter than boolean connectives, arithmetic tighter than
/// comparison, exponentiation tighter than any other arithmetic, and
/// ranges weakest-coupled of the tight group.
pub open spec fn spec_bin_binding_powers(op: BinaryOp) -> (u8, u8) {
    match op {
        BinaryOp::Or | BinaryOp::And => (1u8, 2u8),
        BinaryOp::NotEq | BinaryOp::LessOrEq | BinaryOp::MoreOrEq | BinaryOp::LargerThan
            | BinaryOp::SmallerThan | BinaryOp::Eq => (3u8, 4u8),
        BinaryOp::Add | BinaryOp::Sub => (5u8, 6u8),
        BinaryOp::Mult | BinaryOp::Div => (7u8, 8u8),
        BinaryOp::Mod => (9u8, 10u8),
        BinaryOp::Exp => (13u8, 14u8),
        BinaryOp::Range => (15u8, 16u8),
    }
}

/// The left and right binding powers of a binary operator.
pub fn bin_binding_powers(op: &BinaryOp) -> (r: (u8, u8))
    ensures
        r == spec_bin_binding_powers(*op),
{
    match op {
        BinaryOp::Or | BinaryOp::And => (1, 2),
        BinaryOp::NotEq | BinaryOp::LessOrEq | BinaryOp::MoreOrEq | BinaryOp::LargerThan
            | BinaryOp::SmallerThan | BinaryOp::Eq => (3, 4),
        BinaryOp::Add | BinaryOp::Sub => (5, 6),
        BinaryOp::Mult | BinaryOp::Div => (7, 8),
        BinaryOp::Mod => (9, 10),
        BinaryOp::Exp => (13, 14),
        BinaryOp::Range => (15, 16),
    }
}

/// The right binding power of a prefix operator: prefixes bind tighter
/// than any binary operator.
pub fn prefix_binding_power(op: UnaryOp) -> (r: ((), u8))
    ensures
        r.1 == 17u8,
{
    match op {
        UnaryOp::Neg | UnaryOp::Not => ((), 17),
    }
}

/// The left binding power of a postfix unit: units bind tighter than
/// anything else.
pub fn postfix_binding_power(unit: Unit) -> (r: (u8, ()))
    ensures
        r.0 == 19u8,
{
    match unit {
        Unit::Pixels | Unit::Degrees | Unit::Radians | Unit::Percent => (19, ()),
    }
}

impl<'src> Parser<'src> {
    /// Parses either an expression wrapped in `{ .. }` or a literal,
    /// lifting the literal into expression form. The braces are read as an
    /// expression wrapper exactly when the lookahead says they do not open
    /// a map.
    pub fn literal_or_wrapped_expression(&mut self) -> (r: Result<Expression, PaxParseError>)
        requires
            old(self).wf(),
        ensures
            final(self).advanced_from(old(self)),
            r matches Ok(e) ==> expression_wf(e, old(self).source()) && final(self).at() > old(
                self,
            ).at(),
            !value_startable(old(self).peek_kind()) ==> r is Err,
            spec_literal_or_wrapped(old(self).toks(), old(self).at()) == (if r is Ok {
                Some(final(self).at())
            } else {
                None::<int>
            }),
            r matches Ok(e) ==> expr_shape(e) == spec_literal_or_wrapped_tree(
                old(self).toks(),
                old(self).at(),
            ),
        decreases old(self).toks().len() - old(self).at(), 14int,
    {
        self.push_context("Expression (var + 5.0/(i + 3%))");
        let r = self.literal_or_wrapped_expression_rule();
        self.pop_context();
        proof {
            assert(final(self).ctx() =~= old(self).ctx());
        }
        r
    }

    #[verifier::spinoff_prover]
    #[verifier::rlimit(100)]
    fn literal_or_wrapped_expression_rule(&mut self) -> (r: Result<Expression, PaxParseError>)
        requires
            old(self).wf(),
        ensures
            final(self).source() == old(self).source(),
            final(self).toks() == old(self).toks(),
            final(self).ctx() == old(self).ctx(),
            old(self).at() <= final(self).at() <= final(self).toks().len(),
            r matches Ok(e) ==> expression_wf(e, old(self).source()) && final(self).at() > old(
                self,
            ).at(),
            !value_startable(old(self).peek_kind()) ==> r is Err,
            spec_literal_or_wrapped(old(self).toks(), old(self).at()) == (if r is Ok {
                Some(final(self).at())
            } else {
                None::<int>
            }),
            r matches Ok(e) ==> expr_shape(e) == spec_literal_or_wrapped_tree(
                old(self).toks(),
                old(self).at(),
            ),
        decreases old(self).toks().len() - old(self).at(), 13int,
    {
        proof {
            reveal(spec_literal_or_wrapped);
            reveal(spec_literal_or_wrapped_tree);
        }
        // decide whether the `{ .. }` ahead wraps an expression like
        // `{5 + 4}` or opens a map like `{hello: 5}`
        let is_expression = self.peek_token() == TokenKind::OpenCurlBrack && !self.is_map_next();

        if is_expression {
            self.expect(TokenKind::OpenCurlBrack)?;
            let expr = self.expression_with_min_bp(0)?;
            self.expect(TokenKind::CloseCurlBrack)?;
            Ok(expr)
        } else {
            // parse a literal and lift it into expression form
            let lit = self.literal()?;
            proof {
                reveal_with_fuel(expression_wf, 3);
            }
            let ghost gv = lit.value;
            match lit.unit {
                Some(unit) => {
                    let e = Expression::WithUnit {
                        val: Box::new(Expression::Value(lit.value)),
                        unit,
                    };
                    proof {
                        assert(expr_shape(Expression::Value(gv)) == ExprShape::Value(
                            value_shape(gv),
                        ));
                        assert(expr_shape(e) == (ExprShape::WithUnit {
                            val: Box::new(ExprShape::Value(value_shape(gv))),
                            unit,
                        }));
                    }
                    Ok(e)
                },
                None => {
                    let e = Expression::Value(lit.value);
                    proof {
                        assert(expr_shape(e) == ExprShape::Value(value_shape(gv)));
                    }
                    Ok(e)
                },
            }
        }
    }

    /// Parses one expression at the weakest binding power.
    pub fn expression(&mut self) -> (r: Result<Expression, PaxParseError>)
        requires
            old(self).wf(),
        ensures
            final(self).advanced_from(old(self)),
            r matches Ok(e) ==> expression_wf(e, old(self).source()) && final(self).at() > old(
                self,
            ).at(),
            !expression_startable(old(self).peek_kind()) ==> r is Err,
            (old(self).peek_kind() == TokenKind::Integer && !pratt_op_kind(
                old(self).peek_kind_at(1),
            )) ==> r == Ok::<Expression, PaxParseError>(
                Expression::Value(Value::Int(old(self).cur().span)),
            ) && final(self).at() == old(self).at() + 1,
            spec_expr_bp(old(self).toks(), old(self).at(), 0) == (if r is Ok {
                Some(final(self).at())
            } else {
                None::<int>
            }),
            r matches Ok(e) ==> expr_shape(e) == spec_expr_tree(old(self).toks(), old(self).at(), 0),
        decreases old(self).toks().len() - old(self).at(), 13int,
    {
        self.expression_with_min_bp(0)
    }

    /// The Pratt loop: parses a prefix production, then folds in binary
    /// and unit-postfix operators while their left binding power reaches
    /// `min_bp`. A `/` that begins a closing tag (`/>` ahead) ends the
    /// expression instead of dividing.
    pub(crate) fn expression_with_min_bp(&mut self, min_bp: u8) -> (r: Result<
        Expression,
        PaxParseError,
    >)
        requires
            old(self).wf(),
        ensures
            final(self).advanced_from(old(self)),
            r matches Ok(e) ==> expression_wf(e, old(self).source()) && final(self).at() > old(
                self,
            ).at(),
            !expression_startable(old(self).peek_kind()) ==> r is Err,
            (old(self).peek_kind() == TokenKind::Integer && !pratt_op_kind(
                old(self).peek_kind_at(1),
            )) ==> r == Ok::<Expression, PaxParseError>(
                Expression::Value(Value::Int(old(self).cur().span)),
            ) && final(self).at() == old(self).at() + 1,
            spec_expr_bp(old(self).toks(), old(self).at(), min_bp) == (if r is Ok {
                Some(final(self).at())
            } else {
                None::<int>
            }),
            r matches Ok(e) ==> expr_shape(e) == spec_expr_tree(
                old(self).toks(),
                old(self).at(),
                min_bp,
            ),
        decreases old(self).toks().len() - old(self).at(), 12int,
    {
        let k0 = self.peek_token();
        let mut value: Expression;
        if k0 == TokenKind::Identifier || k0 == TokenKind::Integer || k0 == TokenKind::Float || k0
            == TokenKind::OpenCurlBrack || k0 == TokenKind::String || k0
            == TokenKind::OpenSquareBrack || k0 == TokenKind::OpenParenth {
            let v = self.value()?;
            let ghost gv = v;
            value = Expression::Value(v);
            proof {
                assert(advance(old(self).at(), self.at(), self.toks().len() as int) == self.at());
                assert(expr_shape(value) == ExprShape::Value(value_shape(gv)));
                assert(value_shape(gv) == spec_value_tree(self.toks(), old(self).at()));
                assert(spec_expr_tree(self.toks(), old(self).at(), min_bp) == spec_pratt_tree(
                    self.toks(),
                    self.at(),
                    min_bp,
                    expr_shape(value),
                ));
            }
        } else if k0 == TokenKind::Not {
            let (_, rbp) = prefix_binding_power(UnaryOp::Not);
            let _ = self.next_token();
            let rhs = self.expression_with_min_bp(rbp)?;
            let ghost grhs = rhs;
            value = Expression::Unary { op: UnaryOp::Not, val: Box::new(rhs) };
            proof {
                assert(advance(old(self).at(), self.at(), self.toks().len() as int) == self.at());
                assert(expr_shape(value) == (ExprShape::Unary {
                    op: UnaryOp::Not,
                    val: Box::new(expr_shape(grhs)),
                }));
                assert(spec_expr_tree(self.toks(), old(self).at(), min_bp) == spec_pratt_tree(
                    self.toks(),
                    self.at(),
                    min_bp,
                    expr_shape(value),
                ));
            }
        } else if k0 == TokenKind::Minus {
            // prefix minus
            let (_, rbp) = prefix_binding_power(UnaryOp::Neg);
            let _ = self.next_token();
            let rhs = self.expression_with_min_bp(rbp)?;
            let ghost grhs = rhs;
            value = Expression::Unary { op: UnaryOp::Neg, val: Box::new(rhs) };
            proof {
                assert(advance(old(self).at(), self.at(), self.toks().len() as int) == self.at());
                assert(expr_shape(value) == (ExprShape::Unary {
                    op: UnaryOp::Neg,
                    val: Box::new(expr_shape(grhs)),
                }));
                assert(spec_expr_tree(self.toks(), old(self).at(), min_bp) == spec_pratt_tree(
                    self.toks(),
                    self.at(),
                    min_bp,
                    expr_shape(value),
                ));
            }
        } else {
            return Err(
                self.error(
                    &[
                        TokenKind::Identifier,
                        TokenKind::Integer,
                        TokenKind::Float,
                        TokenKind::OpenCurlBrack,
                        TokenKind::String,
                        TokenKind::OpenSquareBrack,
                        TokenKind::OpenParenth,
                        TokenKind::Not,
                        TokenKind::Minus,
                    ],
                ),
            );
        }

        let ghost entry = *self;
        let ghost value0 = value;
        loop
            invariant
                self.wf(),
                old(self).wf(),
                entry.wf(),
                spec_expr_bp(self.toks(), old(self).at(), min_bp) == spec_pratt(
                    self.toks(),
                    self.at(),
                    min_bp,
                ),
                spec_expr_tree(self.toks(), old(self).at(), min_bp) == spec_pratt_tree(
                    self.toks(),
                    self.at(),
                    min_bp,
                    expr_shape(value),
                ),
                self.advanced_from(old(self)),
                self.at() > old(self).at(),
                expression_wf(value, old(self).source()),
                !pratt_op_kind(entry.peek_kind()) ==> *self == entry && value == value0,
                entry.toks() == old(self).toks(),
                entry.source() == old(self).source(),
                old(self).peek_kind() == TokenKind::Integer ==> entry.at() == old(self).at() + 1
                    && value0 == Expression::Value(Value::Int(old(self).cur().span)),
            ensures
                self.wf(),
                self.advanced_from(old(self)),
                self.at() > old(self).at(),
                expression_wf(value, old(self).source()),
                !pratt_op_kind(entry.peek_kind()) ==> *self == entry && value == value0,
                entry.toks() == old(self).toks(),
                entry.source() == old(self).source(),
                old(self).peek_kind() == TokenKind::Integer ==> entry.at() == old(self).at() + 1
                    && value0 == Expression::Value(Value::Int(old(self).cur().span)),
                spec_expr_bp(self.toks(), old(self).at(), min_bp) == Some(self.at() as int),
                expr_shape(value) == spec_expr_tree(self.toks(), old(self).at(), min_bp),
            decreases self.toks().len() - self.at(),
        {
            let k = self.peek_token();
            let op: Op;
            // units
            if k == TokenKind::Pixels {
                op = Op::Postfix(Unit::Pixels);
            } else if k == TokenKind::Percent {
                op = Op::Postfix(Unit::Percent);
            } else if k == TokenKind::Degrees {
                op = Op::Postfix(Unit::Degrees);
            } else if k == TokenKind::Radians {
                op = Op::Postfix(Unit::Radians);
            // binary operators
            } else if k == TokenKind::Plus {
                op = Op::Binary(BinaryOp::Add);
            } else if k == TokenKind::Minus {
                op = Op::Binary(BinaryOp::Sub);
            } else if k == TokenKind::Asterisk {
                op = Op::Binary(BinaryOp::Mult);
            } else if k == TokenKind::Remainder {
                op = Op::Binary(BinaryOp::Mod);
            } else if k == TokenKind::Range {
                op = Op::Binary(BinaryOp::Range);
            } else if k == TokenKind::Eq {
                op = Op::Binary(BinaryOp::Eq);
            } else if k == TokenKind::LessOrEq {
                op = Op::Binary(BinaryOp::LessOrEq);
            } else if k == TokenKind::MoreOrEq {
                op = Op::Binary(BinaryOp::MoreOrEq);
            } else if k == TokenKind::NotEq {
                op = Op::Binary(BinaryOp::NotEq);
            } else if k == TokenKind::Or {
                op = Op::Binary(BinaryOp::Or);
            } else if k == TokenKind::And {
                op = Op::Binary(BinaryOp::And);
            } else if k == TokenKind::CloseAngBrack {
                op = Op::Binary(BinaryOp::LargerThan);
            } else if k == TokenKind::OpenAngBrack {
                op = Op::Binary(BinaryOp::SmallerThan);
            } else if k == TokenKind::Exp {
                op = Op::Binary(BinaryOp::Exp);
            } else if k == TokenKind::Slash {
                if self.peek_nth_token(1) == TokenKind::CloseAngBrack {
                    // this slash starts a closing tag, not a division
                    proof {
                        lemma_pratt_tree_stop(self.toks(), self.at(), min_bp, expr_shape(value));
                    }
                    break;
                }
                op = Op::Binary(BinaryOp::Div);
            } else {
                proof {
                    lemma_pratt_tree_stop(self.toks(), self.at(), min_bp, expr_shape(value));
                }
                break;
            }

            match op {
                Op::Binary(bop) => {
                    proof {
                        assert(Op::Binary(binop_of(k)) == op);
                    }
                    let (lbp, rbp) = bin_binding_powers(&bop);
                    if lbp < min_bp {
                        proof {
                            lemma_pratt_tree_stop(self.toks(), self.at(), min_bp, expr_shape(value));
                        }
                        break;
                    }
                    // consume the operator
                    let ghost head = self.at();
                    let ghost acc0 = value;
                    let _ = self.next_token();
                    let rhs = self.expression_with_min_bp(rbp)?;
                    let ghost grhs = rhs;
                    value = Expression::Binary {
                        left: Box::new(value),
                        op: bop,
                        right: Box::new(rhs),
                    };
                    proof {
                        assert(advance(head, self.at(), self.toks().len() as int) == self.at());
                        assert(expr_shape(value) == (ExprShape::Binary {
                            left: Box::new(expr_shape(acc0)),
                            op: binop_of(k),
                            right: Box::new(expr_shape(grhs)),
                        }));
                        assert(spec_pratt_tree(self.toks(), head, min_bp, expr_shape(acc0))
                            == spec_pratt_tree(self.toks(), self.at(), min_bp, expr_shape(value)));
                    }
                },
                Op::Postfix(unit) => {
                    proof {
                        assert(Op::Postfix(unit_of(k)) == op);
                    }
                    let (lbp, _) = postfix_binding_power(unit);
                    if lbp < min_bp {
                        proof {
                            lemma_pratt_tree_stop(self.toks(), self.at(), min_bp, expr_shape(value));
                        }
                        break;
                    }
                    // consume the operator
                    let ghost head = self.at();
                    let ghost acc0 = value;
                    let _ = self.next_token();
                    value = Expression::WithUnit { val: Box::new(value), unit };
                    proof {
                        assert(expr_shape(value) == (ExprShape::WithUnit {
                            val: Box::new(expr_shape(acc0)),
                            unit: unit_of(k),
                        }));
                        assert(spec_pratt_tree(self.toks(), head, min_bp, expr_shape(acc0))
                            == spec_pratt_tree(self.toks(), self.at(), min_bp, expr_shape(value)));
                    }
                },
            }
        }
        Ok(value)
    }
}

} // verus!
