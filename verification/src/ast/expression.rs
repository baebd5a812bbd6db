//! Expression nodes: values, literals, unary, binary and unit-postfix
//! forms.

use vstd::prelude::*;

use crate::ast::common::FieldOrComment;
use crate::ast::common::Identifier;
use crate::ast::common::field_or_comment_wf;
use crate::ast::common::identifier_wf;
use crate::span::Span;
use crate::span::span_wf;

verus! {

/// An expression tree as produced by the Pratt core.
#[allow(inconsistent_fields)]
#[derive(Debug, PartialEq)]
pub enum Expression {
    Value(Value),
    Unary { op: UnaryOp, val: Box<Expression> },
    WithUnit { val: Box<Expression>, unit: Unit },
    Binary { left: Box<Expression>, op: BinaryOp, right: Box<Expression> },
}

/// A literal: a value optionally tagged with a physical unit. The unit is
/// only ever attached to numeric values; `literal_wf` states exactly that.
#[derive(Debug, PartialEq)]
pub struct Literal {
    pub value: Value,
    pub unit: Option<Unit>,
}

/// A leaf-ish value of an expression.
#[derive(Debug, PartialEq)]
pub enum Value {
    /// A dotted variable path; always non-empty.
    Variable(Vec<Identifier>),
    EnumVariant(EnumVariant),
    Float(Span),
    Int(Span),
    String(Span),
    Object(Object),
    FunctionCall(FunctionCall),
    List(Vec<Expression>),
    Tuple(Vec<Expression>),
}

/// A map with an optional leading identifier naming its type.
#[derive(Debug, PartialEq)]
pub struct Object {
    pub name: Option<Identifier>,
    pub fields: Vec<FieldOrComment>,
}

/// `Name::Variant` optionally followed by parenthesised arguments.
#[derive(Debug, PartialEq)]
pub struct EnumVariant {
    pub name: Identifier,
    pub variant: Identifier,
    pub arguments: Vec<Expression>,
}

/// `name(arguments...)`.
#[derive(Debug, PartialEq)]
pub struct FunctionCall {
    pub name: Identifier,
    pub arguments: Vec<Expression>,
}

/// An operator met while running the Pratt loop: a binary operator or a
/// postfix unit.
#[derive(Debug, Clone, Copy, PartialEq, Eq, Structural)]
pub enum Op {
    Binary(BinaryOp),
    Postfix(Unit),
}

/// A prefix operator.
#[derive(Debug, Clone, Copy, PartialEq, Eq, Structural)]
pub enum UnaryOp {
    Neg,
    Not,
}

/// A physical unit attached by a postfix operator.
#[derive(Debug, Clone, Copy, PartialEq, Eq, Structural)]
pub enum Unit {
    Degrees,
    Radians,
    Percent,
    Pixels,
}

/// A binary operator.
#[derive(Debug, Clone, Copy, PartialEq, Eq, Structural)]
pub enum BinaryOp {
    /// `+`
    Add,
    /// `-`
    Sub,
    /// `*`
    Mult,
    /// `/`
    Div,
    /// `%%`
    Mod,
    /// `..`
    Range,
    /// `==`
    Eq,
    /// `!=`
    NotEq,
    /// `<=`
    LessOrEq,
    /// `>=`
    MoreOrEq,
    /// `>`
    LargerThan,
    /// `<`
    SmallerThan,
    /// `||`
    Or,
    /// `&&`
    And,
    /// `^`
    Exp,
}

/// Every span leaf of the expression is a valid byte range of `src` and
/// every identifier leaf slices to an identifier-shaped lexeme.
pub open spec fn expression_wf(e: Expression, src: Seq<u8>) -> bool
    decreases e,
{
    match e {
        Expression::Value(v) => value_wf(v, src),
        Expression::Unary { op, val } => expression_wf(*val, src),
        Expression::WithUnit { val, unit } => expression_wf(*val, src),
        Expression::Binary { left, op, right } => expression_wf(*left, src) && expression_wf(
            *right,
            src,
        ),
    }
}

pub open spec fn value_wf(v: Value, src: Seq<u8>) -> bool
    decreases v,
{
    match v {
        Value::Variable(path) => path@.len() >= 1 && forall|i: int|
            0 <= i < path@.len() ==> identifier_wf(#[trigger] path@[i], src),
        Value::EnumVariant(ev) => enum_variant_wf(ev, src),
        Value::Float(s) => span_wf(s, src),
        Value::Int(s) => span_wf(s, src),
        Value::String(s) => span_wf(s, src),
        Value::Object(o) => object_wf(o, src),
        Value::FunctionCall(fc) => function_call_wf(fc, src),
        Value::List(es) => forall|i: int|
            0 <= i < es@.len() ==> expression_wf(#[trigger] es@[i], src),
        Value::Tuple(es) => forall|i: int|
            0 <= i < es@.len() ==> expression_wf(#[trigger] es@[i], src),
    }
}

pub open spec fn object_wf(o: Object, src: Seq<u8>) -> bool
    decreases o,
{
    &&& match o.name {
        Some(id) => identifier_wf(id, src),
        None => true,
    }
    &&& forall|i: int|
        0 <= i < o.fields@.len() ==> field_or_comment_wf(#[trigger] o.fields@[i], src)
}

pub open spec fn enum_variant_wf(ev: EnumVariant, src: Seq<u8>) -> bool
    decreases ev,
{
    &&& identifier_wf(ev.name, src)
    &&& identifier_wf(ev.variant, src)
    &&& forall|i: int|
        0 <= i < ev.arguments@.len() ==> expression_wf(#[trigger] ev.arguments@[i], src)
}

pub open spec fn function_call_wf(fc: FunctionCall, src: Seq<u8>) -> bool
    decreases fc,
{
    &&& identifier_wf(fc.name, src)
    &&& forall|i: int|
        0 <= i < fc.arguments@.len() ==> expression_wf(#[trigger] fc.arguments@[i], src)
}

/// A literal is well formed when its value is, and its unit, if present, is
/// attached to a numeric value: `unit` is `None` unless the value is `Int`
/// or `Float`.
pub open spec fn literal_wf(l: Literal, src: Seq<u8>) -> bool {
    &&& value_wf(l.value, src)
    &&& l.unit is Some ==> (l.value is Int || l.value is Float)
}

} // verus!
