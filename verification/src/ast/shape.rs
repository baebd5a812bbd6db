//! Ghost mirrors of the AST node families, with mathematical sequences in
//! place of vectors, reached through `DeepView`. Specification functions
//! can build whole trees of these shapes, which pins the parser's output:
//! a rule returns exactly the node whose shape the specification grammar
//! gives.

use vstd::prelude::*;

use crate::ast::common::Comment;
use crate::ast::common::FieldOrComment;
use crate::ast::common::Handler;
use crate::ast::common::Identifier;
use crate::ast::expression::BinaryOp;
use crate::ast::expression::Expression;
use crate::ast::expression::UnaryOp;
use crate::ast::expression::Unit;
use crate::ast::expression::Value;
use crate::ast::settings::Class;
use crate::ast::settings::Id;
use crate::ast::settings::SettingsEntry;
use crate::ast::template::Attribute;
use crate::ast::template::Binding;
use crate::ast::template::Conditional;
use crate::ast::template::Loop;
use crate::ast::template::MatchPattern;
use crate::ast::template::Tag;
use crate::ast::template::TemplateEntry;
use crate::span::Span;

verus! {

/// The shape of an [`Expression`].
#[verifier::ext_equal]
pub enum ExprShape {
    Value(ValueShape),
    Unary { op: UnaryOp, val: Box<ExprShape> },
    WithUnit { val: Box<ExprShape>, unit: Unit },
    Binary { left: Box<ExprShape>, op: BinaryOp, right: Box<ExprShape> },
}

/// The shape of a [`Value`].
#[verifier::ext_equal]
pub enum ValueShape {
    Variable(Seq<Identifier>),
    EnumVariant { name: Identifier, variant: Identifier, arguments: Seq<ExprShape> },
    Float(Span),
    Int(Span),
    String(Span),
    Object { name: Option<Identifier>, fields: Seq<FieldShape> },
    FunctionCall { name: Identifier, arguments: Seq<ExprShape> },
    List(Seq<ExprShape>),
    Tuple(Seq<ExprShape>),
}

/// The shape of a [`FieldOrComment`].
#[verifier::ext_equal]
pub enum FieldShape {
    Field { key: Identifier, value: ExprShape },
    Comment(Comment),
}

/// The shape of a [`TemplateEntry`].
#[verifier::ext_equal]
pub enum TemplateShape {
    Comment(Comment),
    Tag { name: Identifier, attributes: Seq<AttributeShape>, body: Seq<TemplateShape> },
    Loop { pattern: MatchPattern, source: ExprShape, body: Seq<TemplateShape> },
    Conditional { condition: ExprShape, body: Seq<TemplateShape> },
    Slot(ExprShape),
}

/// The shape of an [`Attribute`].
#[verifier::ext_equal]
pub enum AttributeShape {
    Handler(Handler),
    Field { key: Identifier, value: ExprShape },
    Binding(Binding),
}

/// The shape of a [`SettingsEntry`].
#[verifier::ext_equal]
pub enum SettingsShape {
    Comment(Comment),
    Handler(Handler),
    Class { name: Identifier, binding: Seq<FieldShape> },
    Id { name: Identifier, binding: Seq<FieldShape> },
}

impl DeepView for Expression {
    type V = ExprShape;

    open spec fn deep_view(&self) -> ExprShape
        decreases self, 0int,
    {
        match *self {
            Expression::Value(v) => ExprShape::Value(value_shape(v)),
            Expression::Unary { op, val } => ExprShape::Unary {
                op,
                val: Box::new(expr_shape(*val)),
            },
            Expression::WithUnit { val, unit } => ExprShape::WithUnit {
                val: Box::new(expr_shape(*val)),
                unit,
            },
            Expression::Binary { left, op, right } => ExprShape::Binary {
                left: Box::new(expr_shape(*left)),
                op,
                right: Box::new(expr_shape(*right)),
            },
        }
    }
}

impl DeepView for Value {
    type V = ValueShape;

    open spec fn deep_view(&self) -> ValueShape
        decreases self, 0int,
    {
        match *self {
            Value::Variable(path) => ValueShape::Variable(path@),
            Value::EnumVariant(ev) => ValueShape::EnumVariant {
                name: ev.name,
                variant: ev.variant,
                arguments: exprs_shape(ev.arguments@),
            },
            Value::Float(s) => ValueShape::Float(s),
            Value::Int(s) => ValueShape::Int(s),
            Value::String(s) => ValueShape::String(s),
            Value::Object(o) => ValueShape::Object {
                name: o.name,
                fields: fields_shape(o.fields@),
            },
            Value::FunctionCall(fc) => ValueShape::FunctionCall {
                name: fc.name,
                arguments: exprs_shape(fc.arguments@),
            },
            Value::List(es) => ValueShape::List(exprs_shape(es@)),
            Value::Tuple(es) => ValueShape::Tuple(exprs_shape(es@)),
        }
    }
}

impl DeepView for FieldOrComment {
    type V = FieldShape;

    open spec fn deep_view(&self) -> FieldShape
        decreases self, 0int,
    {
        match *self {
            FieldOrComment::Field(f) => FieldShape::Field {
                key: f.key,
                value: expr_shape(f.value),
            },
            FieldOrComment::Comment(c) => FieldShape::Comment(c),
        }
    }
}

impl DeepView for Attribute {
    type V = AttributeShape;

    open spec fn deep_view(&self) -> AttributeShape
        decreases self, 0int,
    {
        match *self {
            Attribute::Handler(h) => AttributeShape::Handler(h),
            Attribute::Field(f) => AttributeShape::Field {
                key: f.key,
                value: expr_shape(f.value),
            },
            Attribute::Binding(b) => AttributeShape::Binding(b),
        }
    }
}

impl DeepView for Tag {
    type V = TemplateShape;

    open spec fn deep_view(&self) -> TemplateShape
        decreases self, 0int,
    {
        TemplateShape::Tag {
            name: self.name,
            attributes: attrs_shape(self.attributes@),
            body: templates_shape(self.body@),
        }
    }
}

impl DeepView for Loop {
    type V = TemplateShape;

    open spec fn deep_view(&self) -> TemplateShape
        decreases self, 0int,
    {
        TemplateShape::Loop {
            pattern: self.pattern,
            source: expr_shape(self.source),
            body: templates_shape(self.body@),
        }
    }
}

impl DeepView for Conditional {
    type V = TemplateShape;

    open spec fn deep_view(&self) -> TemplateShape
        decreases self, 0int,
    {
        TemplateShape::Conditional {
            condition: expr_shape(self.condition),
            body: templates_shape(self.body@),
        }
    }
}

impl DeepView for TemplateEntry {
    type V = TemplateShape;

    open spec fn deep_view(&self) -> TemplateShape
        decreases self, 0int,
    {
        match *self {
            TemplateEntry::Comment(c) => TemplateShape::Comment(c),
            TemplateEntry::Tag(t) => tag_shape(t),
            TemplateEntry::Loop(l) => loop_shape(l),
            TemplateEntry::Conditional(c) => conditional_shape(c),
            TemplateEntry::Slot(e) => TemplateShape::Slot(expr_shape(e)),
        }
    }
}

impl DeepView for Class {
    type V = SettingsShape;

    open spec fn deep_view(&self) -> SettingsShape
        decreases self, 0int,
    {
        SettingsShape::Class { name: self.name, binding: fields_shape(self.binding@) }
    }
}

impl DeepView for Id {
    type V = SettingsShape;

    open spec fn deep_view(&self) -> SettingsShape
        decreases self, 0int,
    {
        SettingsShape::Id { name: self.name, binding: fields_shape(self.binding@) }
    }
}

impl DeepView for SettingsEntry {
    type V = SettingsShape;

    open spec fn deep_view(&self) -> SettingsShape
        decreases self, 0int,
    {
        match *self {
            SettingsEntry::Comment(c) => SettingsShape::Comment(c),
            SettingsEntry::Handler(h) => SettingsShape::Handler(h),
            SettingsEntry::Class(c) => class_shape(c),
            SettingsEntry::Id(i) => id_shape(i),
        }
    }
}


// The named shape of each node, taking the node by value; the contracts
// speak through these, one symbol per node family.

pub open spec fn expr_shape(e: Expression) -> ExprShape
    decreases e, 1int,
{
    e.deep_view()
}

pub open spec fn value_shape(v: Value) -> ValueShape
    decreases v, 1int,
{
    v.deep_view()
}

pub open spec fn field_shape(f: FieldOrComment) -> FieldShape
    decreases f, 1int,
{
    f.deep_view()
}

pub open spec fn attribute_shape(a: Attribute) -> AttributeShape
    decreases a, 1int,
{
    a.deep_view()
}

pub open spec fn template_entry_shape(t: TemplateEntry) -> TemplateShape
    decreases t, 1int,
{
    t.deep_view()
}

pub open spec fn tag_shape(t: Tag) -> TemplateShape
    decreases t, 1int,
{
    t.deep_view()
}

pub open spec fn loop_shape(l: Loop) -> TemplateShape
    decreases l, 1int,
{
    l.deep_view()
}

pub open spec fn conditional_shape(c: Conditional) -> TemplateShape
    decreases c, 1int,
{
    c.deep_view()
}

pub open spec fn settings_entry_shape(e: SettingsEntry) -> SettingsShape
    decreases e, 1int,
{
    e.deep_view()
}

pub open spec fn class_shape(c: Class) -> SettingsShape
    decreases c, 1int,
{
    c.deep_view()
}

pub open spec fn id_shape(i: Id) -> SettingsShape
    decreases i, 1int,
{
    i.deep_view()
}

/// The shapes of a sequence of expressions, element for element.
pub open spec fn exprs_shape(es: Seq<Expression>) -> Seq<ExprShape>
    decreases es, 2int,
{
    if es.len() == 0 {
        Seq::empty()
    } else {
        seq![expr_shape(es[0])] + exprs_shape(es.skip(1))
    }
}

/// The shapes of a sequence of map entries, element for element.
pub open spec fn fields_shape(fs: Seq<FieldOrComment>) -> Seq<FieldShape>
    decreases fs, 2int,
{
    if fs.len() == 0 {
        Seq::empty()
    } else {
        seq![field_shape(fs[0])] + fields_shape(fs.skip(1))
    }
}

/// The shapes of a sequence of attributes, element for element.
pub open spec fn attrs_shape(attrs: Seq<Attribute>) -> Seq<AttributeShape>
    decreases attrs, 2int,
{
    if attrs.len() == 0 {
        Seq::empty()
    } else {
        seq![attribute_shape(attrs[0])] + attrs_shape(attrs.skip(1))
    }
}

/// The shapes of a sequence of template entries, element for element.
pub open spec fn templates_shape(es: Seq<TemplateEntry>) -> Seq<TemplateShape>
    decreases es, 2int,
{
    if es.len() == 0 {
        Seq::empty()
    } else {
        seq![template_entry_shape(es[0])] + templates_shape(es.skip(1))
    }
}

/// The shapes of a sequence of settings entries, element for element.
pub open spec fn settings_shape(es: Seq<SettingsEntry>) -> Seq<SettingsShape>
    decreases es, 2int,
{
    if es.len() == 0 {
        Seq::empty()
    } else {
        seq![settings_entry_shape(es[0])] + settings_shape(es.skip(1))
    }
}

/// Appending an element appends its shape.
pub proof fn lemma_exprs_shape_push(es: Seq<Expression>, e: Expression)
    ensures
        exprs_shape(es.push(e)) == exprs_shape(es).push(expr_shape(e)),
    decreases es.len(),
{
    if es.len() == 0 {
        assert((es.push(e)).skip(1) =~= Seq::<Expression>::empty());
        assert((es.push(e))[0] == e);
        assert(exprs_shape(es.push(e)) == seq![expr_shape(e)] + exprs_shape(
            Seq::<Expression>::empty(),
        ));
        assert(exprs_shape(es.push(e)) =~= exprs_shape(es).push(expr_shape(e)));
    } else {
        assert((es.push(e)).skip(1) =~= es.skip(1).push(e));
        lemma_exprs_shape_push(es.skip(1), e);
        assert((es.push(e))[0] == es[0]);
        assert(exprs_shape(es.push(e)) == seq![expr_shape(es[0])] + exprs_shape(
            es.skip(1).push(e),
        ));
        assert(exprs_shape(es) == seq![expr_shape(es[0])] + exprs_shape(es.skip(1)));
        assert(exprs_shape(es.push(e)) =~= exprs_shape(es).push(expr_shape(e)));
    }
}

/// Appending an element appends its shape.
pub proof fn lemma_fields_shape_push(es: Seq<FieldOrComment>, e: FieldOrComment)
    ensures
        fields_shape(es.push(e)) == fields_shape(es).push(field_shape(e)),
    decreases es.len(),
{
    if es.len() == 0 {
        assert((es.push(e)).skip(1) =~= Seq::<FieldOrComment>::empty());
        assert((es.push(e))[0] == e);
        assert(fields_shape(es.push(e)) == seq![field_shape(e)] + fields_shape(
            Seq::<FieldOrComment>::empty(),
        ));
        assert(fields_shape(es.push(e)) =~= fields_shape(es).push(field_shape(e)));
    } else {
        assert((es.push(e)).skip(1) =~= es.skip(1).push(e));
        lemma_fields_shape_push(es.skip(1), e);
        assert((es.push(e))[0] == es[0]);
        assert(fields_shape(es.push(e)) == seq![field_shape(es[0])] + fields_shape(
            es.skip(1).push(e),
        ));
        assert(fields_shape(es) == seq![field_shape(es[0])] + fields_shape(es.skip(1)));
        assert(fields_shape(es.push(e)) =~= fields_shape(es).push(field_shape(e)));
    }
}

/// Appending an element appends its shape.
pub proof fn lemma_attrs_shape_push(es: Seq<Attribute>, e: Attribute)
    ensures
        attrs_shape(es.push(e)) == attrs_shape(es).push(attribute_shape(e)),
    decreases es.len(),
{
    if es.len() == 0 {
        assert((es.push(e)).skip(1) =~= Seq::<Attribute>::empty());
        assert((es.push(e))[0] == e);
        assert(attrs_shape(es.push(e)) == seq![attribute_shape(e)] + attrs_shape(
            Seq::<Attribute>::empty(),
        ));
        assert(attrs_shape(es.push(e)) =~= attrs_shape(es).push(attribute_shape(e)));
    } else {
        assert((es.push(e)).skip(1) =~= es.skip(1).push(e));
        lemma_attrs_shape_push(es.skip(1), e);
        assert((es.push(e))[0] == es[0]);
        assert(attrs_shape(es.push(e)) == seq![attribute_shape(es[0])] + attrs_shape(
            es.skip(1).push(e),
        ));
        assert(attrs_shape(es) == seq![attribute_shape(es[0])] + attrs_shape(es.skip(1)));
        assert(attrs_shape(es.push(e)) =~= attrs_shape(es).push(attribute_shape(e)));
    }
}

/// Appending an element appends its shape.
pub proof fn lemma_templates_shape_push(es: Seq<TemplateEntry>, e: TemplateEntry)
    ensures
        templates_shape(es.push(e)) == templates_shape(es).push(template_entry_shape(e)),
    decreases es.len(),
{
    if es.len() == 0 {
        assert((es.push(e)).skip(1) =~= Seq::<TemplateEntry>::empty());
        assert((es.push(e))[0] == e);
        assert(templates_shape(es.push(e)) == seq![template_entry_shape(e)] + templates_shape(
            Seq::<TemplateEntry>::empty(),
        ));
        assert(templates_shape(es.push(e)) =~= templates_shape(es).push(template_entry_shape(e)));
    } else {
        assert((es.push(e)).skip(1) =~= es.skip(1).push(e));
        lemma_templates_shape_push(es.skip(1), e);
        assert((es.push(e))[0] == es[0]);
        assert(templates_shape(es.push(e)) == seq![template_entry_shape(es[0])] + templates_shape(
            es.skip(1).push(e),
        ));
        assert(templates_shape(es) == seq![template_entry_shape(es[0])] + templates_shape(es.skip(1)));
        assert(templates_shape(es.push(e)) =~= templates_shape(es).push(template_entry_shape(e)));
    }
}

/// Appending an element appends its shape.
pub proof fn lemma_settings_shape_push(es: Seq<SettingsEntry>, e: SettingsEntry)
    ensures
        settings_shape(es.push(e)) == settings_shape(es).push(settings_entry_shape(e)),
    decreases es.len(),
{
    if es.len() == 0 {
        assert((es.push(e)).skip(1) =~= Seq::<SettingsEntry>::empty());
        assert((es.push(e))[0] == e);
        assert(settings_shape(es.push(e)) == seq![settings_entry_shape(e)] + settings_shape(
            Seq::<SettingsEntry>::empty(),
        ));
        assert(settings_shape(es.push(e)) =~= settings_shape(es).push(settings_entry_shape(e)));
    } else {
        assert((es.push(e)).skip(1) =~= es.skip(1).push(e));
        lemma_settings_shape_push(es.skip(1), e);
        assert((es.push(e))[0] == es[0]);
        assert(settings_shape(es.push(e)) == seq![settings_entry_shape(es[0])] + settings_shape(
            es.skip(1).push(e),
        ));
        assert(settings_shape(es) == seq![settings_entry_shape(es[0])] + settings_shape(es.skip(1)));
        assert(settings_shape(es.push(e)) =~= settings_shape(es).push(settings_entry_shape(e)));
    }
}

/// Concatenating sequences concatenates their shapes.
pub proof fn lemma_templates_shape_add(a: Seq<TemplateEntry>, b: Seq<TemplateEntry>)
    ensures
        templates_shape(a + b) == templates_shape(a) + templates_shape(b),
    decreases a.len(),
{
    if a.len() == 0 {
        assert(a + b =~= b);
        assert(templates_shape(a) + templates_shape(b) =~= templates_shape(b));
    } else {
        assert((a + b).skip(1) =~= a.skip(1) + b);
        lemma_templates_shape_add(a.skip(1), b);
        assert((a + b)[0] == a[0]);
        assert((a + b).len() != 0);
        assert(templates_shape(a + b) == seq![template_entry_shape(a[0])] + templates_shape(a.skip(1) + b));
        assert(templates_shape(a) == seq![template_entry_shape(a[0])] + templates_shape(a.skip(1)));
        assert(templates_shape(a + b) =~= templates_shape(a) + templates_shape(b));
    }
}

/// Concatenating sequences concatenates their shapes.
pub proof fn lemma_settings_shape_add(a: Seq<SettingsEntry>, b: Seq<SettingsEntry>)
    ensures
        settings_shape(a + b) == settings_shape(a) + settings_shape(b),
    decreases a.len(),
{
    if a.len() == 0 {
        assert(a + b =~= b);
        assert(settings_shape(a) + settings_shape(b) =~= settings_shape(b));
    } else {
        assert((a + b).skip(1) =~= a.skip(1) + b);
        lemma_settings_shape_add(a.skip(1), b);
        assert((a + b)[0] == a[0]);
        assert((a + b).len() != 0);
        assert(settings_shape(a + b) == seq![settings_entry_shape(a[0])] + settings_shape(a.skip(1) + b));
        assert(settings_shape(a) == seq![settings_entry_shape(a[0])] + settings_shape(a.skip(1)));
        assert(settings_shape(a + b) =~= settings_shape(a) + settings_shape(b));
    }
}

} // verus!
