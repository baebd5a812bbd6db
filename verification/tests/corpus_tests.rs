//! Larger source examples that must parse, and a few shape checks on the
//! trees they produce.

use pax_parser::Parser;
use pax_parser::ast::PaxAst;
use pax_parser::ast::common::FieldOrComment;
use pax_parser::ast::expression::BinaryOp;
use pax_parser::ast::expression::Expression;
use pax_parser::ast::expression::Unit;
use pax_parser::ast::expression::Value;
use pax_parser::ast::template::Attribute;
use pax_parser::ast::template::TemplateEntry;
use pax_parser::parser::errors::PaxParseError;

fn parse(src: &str) -> Result<PaxAst, PaxParseError> {
    Parser::new(src.as_bytes()).pax()
}

fn field_value<'a>(ast: &'a PaxAst, attr: usize) -> &'a Expression {
    match &ast.templates[0] {
        TemplateEntry::Tag(t) => match &t.attributes[attr] {
            Attribute::Field(f) => &f.value,
            other => panic!("expected a field, got {:?}", other),
        },
        other => panic!("expected a tag, got {:?}", other),
    }
}

#[test]
fn test_range_binds_weaker_than_addition() {
    // with the given binding powers, `1..n+1` parses as `(1..n)+1`
    let ast = parse("<A x={1..n+1}/>").unwrap();
    match field_value(&ast, 0) {
        Expression::Binary { left, op: BinaryOp::Add, right } => {
            assert!(matches!(
                left.as_ref(),
                Expression::Binary { op: BinaryOp::Range, .. }
            ));
            assert!(matches!(right.as_ref(), Expression::Value(Value::Int(_))));
        },
        other => panic!("expected addition at the root, got {:?}", other),
    }
}

#[test]
fn test_logic_and_comparison_operators() {
    let ast = parse("<A x={a <= b && b != c || !d}/>").unwrap();
    assert!(matches!(
        field_value(&ast, 0),
        Expression::Binary { op: BinaryOp::Or, .. }
    ));
}

#[test]
fn test_remainder_operator() {
    let ast = parse("<A x={a %% 2}/>").unwrap();
    assert!(matches!(
        field_value(&ast, 0),
        Expression::Binary { op: BinaryOp::Mod, .. }
    ));
}

#[test]
fn test_division_inside_braces() {
    let ast = parse("<A x={w / 2}/>").unwrap();
    assert!(matches!(
        field_value(&ast, 0),
        Expression::Binary { op: BinaryOp::Div, .. }
    ));
}

#[test]
fn test_string_value() {
    let src = "<A t=\"hi there\"/>";
    let ast = parse(src).unwrap();
    match field_value(&ast, 0) {
        Expression::Value(Value::String(s)) => {
            assert_eq!(&src[s.start as usize..s.end as usize], "\"hi there\"");
        },
        other => panic!("expected a string, got {:?}", other),
    }
}

#[test]
fn test_float_with_radians_unit() {
    let ast = parse("<A r=1.5rad/>").unwrap();
    match field_value(&ast, 0) {
        Expression::WithUnit { val, unit } => {
            assert_eq!(*unit, Unit::Radians);
            assert!(matches!(val.as_ref(), Expression::Value(Value::Float(_))));
        },
        other => panic!("expected a value with unit, got {:?}", other),
    }
}

#[test]
fn test_unit_as_postfix_in_expression() {
    let ast = parse("<A w={100px + 4px}/>").unwrap();
    match field_value(&ast, 0) {
        Expression::Binary { left, op: BinaryOp::Add, right } => {
            assert!(matches!(
                left.as_ref(),
                Expression::WithUnit { unit: Unit::Pixels, .. }
            ));
            assert!(matches!(
                right.as_ref(),
                Expression::WithUnit { unit: Unit::Pixels, .. }
            ));
        },
        other => panic!("expected an addition, got {:?}", other),
    }
}

#[test]
fn test_map_with_comment_entries() {
    let ast = parse("<A s={// label\n x: 1}/>").unwrap();
    match field_value(&ast, 0) {
        Expression::Value(Value::Object(o)) => {
            assert!(o.name.is_none());
            assert_eq!(o.fields.len(), 2);
            assert!(matches!(o.fields[0], FieldOrComment::Comment(_)));
            assert!(matches!(o.fields[1], FieldOrComment::Field(_)));
        },
        other => panic!("expected an object, got {:?}", other),
    }
}

#[test]
fn test_nested_template_structures() {
    let src = "\
<Outer>
  // per-row layout
  for row in rows {
    if row.visible {
      <Cell value={row.value * scale}/>
    }
  }
</Outer>
";
    let ast = parse(src).unwrap();
    assert_eq!(ast.templates.len(), 1);
    let outer = match &ast.templates[0] {
        TemplateEntry::Tag(t) => t,
        other => panic!("expected a tag, got {:?}", other),
    };
    assert_eq!(outer.body.len(), 2);
    assert!(matches!(outer.body[0], TemplateEntry::Comment(_)));
    let l = match &outer.body[1] {
        TemplateEntry::Loop(l) => l,
        other => panic!("expected a loop, got {:?}", other),
    };
    assert_eq!(l.body.len(), 1);
    assert!(matches!(l.body[0], TemplateEntry::Conditional(_)));
}

#[test]
fn test_interleaved_templates_and_settings() {
    let src = "<A/> @settings { @go: run } <B/>";
    let ast = parse(src).unwrap();
    assert_eq!(ast.templates.len(), 2);
    assert_eq!(ast.settings.len(), 1);
}

#[test]
fn test_trailing_garbage_is_rejected() {
    let err = parse("<A/> junk").unwrap_err();
    assert_eq!(err.short_description, "unexpected character(s)");
}

#[test]
fn test_enum_variant_with_arguments() {
    let ast = parse("<A c=Color::Rgb(255, 0, 0)/>").unwrap();
    match field_value(&ast, 0) {
        Expression::Value(Value::EnumVariant(ev)) => assert_eq!(ev.arguments.len(), 3),
        other => panic!("expected an enum variant, got {:?}", other),
    }
}
