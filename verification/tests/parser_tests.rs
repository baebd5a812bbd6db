use pax_parser::Parser;
use pax_parser::Span;
use pax_parser::TokenKind;
use pax_parser::ast::PaxAst;
use pax_parser::ast::common::FieldOrComment;
use pax_parser::ast::expression::BinaryOp;
use pax_parser::ast::expression::Expression;
use pax_parser::ast::expression::Unit;
use pax_parser::ast::expression::Value;
use pax_parser::ast::settings::SettingsEntry;
use pax_parser::ast::template::Attribute;
use pax_parser::ast::template::MatchPattern;
use pax_parser::ast::template::TemplateEntry;
use pax_parser::parser::errors::AnnotationType;
use pax_parser::parser::errors::PaxParseError;

fn parse(src: &str) -> Result<PaxAst, PaxParseError> {
    Parser::new(src.as_bytes()).pax()
}

fn slice<'a>(src: &'a str, span: Span) -> &'a str {
    &src[span.start as usize..span.end as usize]
}

#[test]
fn test_empty_source_gives_empty_ast() {
    let ast = parse("").unwrap();
    assert_eq!(ast.templates.len(), 0);
    assert_eq!(ast.settings.len(), 0);
}

#[test]
fn test_whitespace_only_source_gives_empty_ast() {
    let ast = parse("  \n\t ").unwrap();
    assert_eq!(ast.templates.len(), 0);
    assert_eq!(ast.settings.len(), 0);
}

#[test]
fn test_comment_only_source_goes_to_templates() {
    let src = "// hello";
    let ast = parse(src).unwrap();
    assert_eq!(ast.settings.len(), 0);
    assert_eq!(ast.templates.len(), 1);
    match &ast.templates[0] {
        TemplateEntry::Comment(c) => assert_eq!(slice(src, c.0), "// hello"),
        other => panic!("expected a comment entry, got {:?}", other),
    }
}

#[test]
fn test_trivial_self_closing_tag() {
    let src = "<Rectangle/>";
    let ast = parse(src).unwrap();
    assert_eq!(ast.templates.len(), 1);
    match &ast.templates[0] {
        TemplateEntry::Tag(t) => {
            assert_eq!(slice(src, t.name.0), "Rectangle");
            assert_eq!(t.attributes.len(), 0);
            assert_eq!(t.body.len(), 0);
        },
        other => panic!("expected a tag, got {:?}", other),
    }
}

#[test]
fn test_field_with_unit() {
    let src = "<Rectangle width=50px/>";
    let ast = parse(src).unwrap();
    let tag = match &ast.templates[0] {
        TemplateEntry::Tag(t) => t,
        other => panic!("expected a tag, got {:?}", other),
    };
    assert_eq!(tag.attributes.len(), 1);
    let field = match &tag.attributes[0] {
        Attribute::Field(f) => f,
        other => panic!("expected a field, got {:?}", other),
    };
    assert_eq!(slice(src, field.key.0), "width");
    match &field.value {
        Expression::WithUnit { val, unit } => {
            assert_eq!(*unit, Unit::Pixels);
            match val.as_ref() {
                Expression::Value(Value::Int(s)) => assert_eq!(slice(src, *s), "50"),
                other => panic!("expected an int value, got {:?}", other),
            }
        },
        other => panic!("expected a value with unit, got {:?}", other),
    }
}

#[test]
fn test_braced_expression_vs_object() {
    let src = "<A x={1+2} y={a: 3}/>";
    let ast = parse(src).unwrap();
    let tag = match &ast.templates[0] {
        TemplateEntry::Tag(t) => t,
        other => panic!("expected a tag, got {:?}", other),
    };
    assert_eq!(tag.attributes.len(), 2);
    // x={1+2} is a braced expression
    match &tag.attributes[0] {
        Attribute::Field(f) => match &f.value {
            Expression::Binary { left, op, right } => {
                assert_eq!(*op, BinaryOp::Add);
                assert!(matches!(left.as_ref(), Expression::Value(Value::Int(_))));
                assert!(matches!(right.as_ref(), Expression::Value(Value::Int(_))));
            },
            other => panic!("expected a binary expression, got {:?}", other),
        },
        other => panic!("expected a field, got {:?}", other),
    }
    // y={a: 3} is an anonymous object
    match &tag.attributes[1] {
        Attribute::Field(f) => match &f.value {
            Expression::Value(Value::Object(o)) => {
                assert!(o.name.is_none());
                assert_eq!(o.fields.len(), 1);
                match &o.fields[0] {
                    FieldOrComment::Field(inner) => {
                        assert_eq!(slice(src, inner.key.0), "a");
                        assert!(matches!(inner.value, Expression::Value(Value::Int(_))));
                    },
                    other => panic!("expected a field entry, got {:?}", other),
                }
            },
            other => panic!("expected an object, got {:?}", other),
        },
        other => panic!("expected a field, got {:?}", other),
    }
}

#[test]
fn test_mismatched_closing_tag() {
    let src = "<A></B>";
    let err = parse(src).unwrap_err();
    assert_eq!(err.short_description, "unexpected closing tag");
    assert_eq!(err.annotations.len(), 2);
    assert_eq!(err.annotations[0].annotation_type, AnnotationType::Primary);
    assert_eq!(slice(src, err.annotations[0].span), "B");
    assert_eq!(err.annotations[1].annotation_type, AnnotationType::Secondary);
    assert_eq!(slice(src, err.annotations[1].span), "A");
}

#[test]
fn test_matching_closing_tag_with_body() {
    let src = "<A><B/></A>";
    let ast = parse(src).unwrap();
    let tag = match &ast.templates[0] {
        TemplateEntry::Tag(t) => t,
        other => panic!("expected a tag, got {:?}", other),
    };
    assert_eq!(slice(src, tag.name.0), "A");
    assert_eq!(tag.body.len(), 1);
    match &tag.body[0] {
        TemplateEntry::Tag(inner) => assert_eq!(slice(src, inner.name.0), "B"),
        other => panic!("expected an inner tag, got {:?}", other),
    }
}

#[test]
fn test_settings_block_with_class_and_id() {
    let src = "@settings { .btn { color: red } #main { width: 100% } }";
    let ast = parse(src).unwrap();
    assert_eq!(ast.templates.len(), 0);
    assert_eq!(ast.settings.len(), 2);
    match &ast.settings[0] {
        SettingsEntry::Class(c) => {
            assert_eq!(slice(src, c.name.0), "btn");
            assert_eq!(c.binding.len(), 1);
            match &c.binding[0] {
                FieldOrComment::Field(f) => {
                    assert_eq!(slice(src, f.key.0), "color");
                    match &f.value {
                        Expression::Value(Value::Variable(path)) => {
                            assert_eq!(path.len(), 1);
                            assert_eq!(slice(src, path[0].0), "red");
                        },
                        other => panic!("expected a variable, got {:?}", other),
                    }
                },
                other => panic!("expected a field, got {:?}", other),
            }
        },
        other => panic!("expected a class, got {:?}", other),
    }
    match &ast.settings[1] {
        SettingsEntry::Id(i) => {
            assert_eq!(slice(src, i.name.0), "main");
            assert_eq!(i.binding.len(), 1);
            match &i.binding[0] {
                FieldOrComment::Field(f) => {
                    assert_eq!(slice(src, f.key.0), "width");
                    match &f.value {
                        Expression::WithUnit { val, unit } => {
                            assert_eq!(*unit, Unit::Percent);
                            assert!(matches!(val.as_ref(), Expression::Value(Value::Int(_))));
                        },
                        other => panic!("expected a value with unit, got {:?}", other),
                    }
                },
                other => panic!("expected a field, got {:?}", other),
            }
        },
        other => panic!("expected an id, got {:?}", other),
    }
}

#[test]
fn test_pratt_precedence() {
    // ^ binds tighter than *, which binds tighter than +
    let src = "<A x={1 + 2 * 3 ^ 4}/>";
    let ast = parse(src).unwrap();
    let tag = match &ast.templates[0] {
        TemplateEntry::Tag(t) => t,
        other => panic!("expected a tag, got {:?}", other),
    };
    let value = match &tag.attributes[0] {
        Attribute::Field(f) => &f.value,
        other => panic!("expected a field, got {:?}", other),
    };
    match value {
        Expression::Binary { left, op: BinaryOp::Add, right } => {
            assert!(matches!(left.as_ref(), Expression::Value(Value::Int(_))));
            match right.as_ref() {
                Expression::Binary { left: l2, op: BinaryOp::Mult, right: r2 } => {
                    assert!(matches!(l2.as_ref(), Expression::Value(Value::Int(_))));
                    assert!(matches!(
                        r2.as_ref(),
                        Expression::Binary { op: BinaryOp::Exp, .. }
                    ));
                },
                other => panic!("expected a multiplication, got {:?}", other),
            }
        },
        other => panic!("expected an addition at the root, got {:?}", other),
    }
}

#[test]
fn test_left_associativity() {
    let src = "<A x={1 - 2 - 3}/>";
    let ast = parse(src).unwrap();
    let tag = match &ast.templates[0] {
        TemplateEntry::Tag(t) => t,
        other => panic!("expected a tag, got {:?}", other),
    };
    let value = match &tag.attributes[0] {
        Attribute::Field(f) => &f.value,
        other => panic!("expected a field, got {:?}", other),
    };
    match value {
        Expression::Binary { left, op: BinaryOp::Sub, right } => {
            assert!(matches!(
                left.as_ref(),
                Expression::Binary { op: BinaryOp::Sub, .. }
            ));
            assert!(matches!(right.as_ref(), Expression::Value(Value::Int(_))));
        },
        other => panic!("expected a subtraction at the root, got {:?}", other),
    }
}

#[test]
fn test_prefix_operators() {
    let src = "<A x={-a} y={!b}/>";
    let ast = parse(src).unwrap();
    let tag = match &ast.templates[0] {
        TemplateEntry::Tag(t) => t,
        other => panic!("expected a tag, got {:?}", other),
    };
    match &tag.attributes[0] {
        Attribute::Field(f) => assert!(matches!(f.value, Expression::Unary { .. })),
        other => panic!("expected a field, got {:?}", other),
    }
    match &tag.attributes[1] {
        Attribute::Field(f) => assert!(matches!(f.value, Expression::Unary { .. })),
        other => panic!("expected a field, got {:?}", other),
    }
}

#[test]
fn test_handler_and_binding_attributes() {
    let src = "<A @click=go bind:data=model/>";
    let ast = parse(src).unwrap();
    let tag = match &ast.templates[0] {
        TemplateEntry::Tag(t) => t,
        other => panic!("expected a tag, got {:?}", other),
    };
    assert_eq!(tag.attributes.len(), 2);
    match &tag.attributes[0] {
        Attribute::Handler(h) => {
            assert_eq!(slice(src, h.key.0), "click");
            assert_eq!(slice(src, h.value.0), "go");
        },
        other => panic!("expected a handler, got {:?}", other),
    }
    match &tag.attributes[1] {
        Attribute::Binding(b) => {
            assert_eq!(slice(src, b.key.0), "data");
            assert_eq!(slice(src, b.value.0), "model");
        },
        other => panic!("expected a binding, got {:?}", other),
    }
}

#[test]
fn test_for_loop_with_tuple_pattern() {
    let src = "for (i, item) in 0..5 { <A/> }";
    let ast = parse(src).unwrap();
    let l = match &ast.templates[0] {
        TemplateEntry::Loop(l) => l,
        other => panic!("expected a loop, got {:?}", other),
    };
    match &l.pattern {
        MatchPattern::Tuple(a, b) => {
            assert_eq!(slice(src, a.0), "i");
            assert_eq!(slice(src, b.0), "item");
        },
        other => panic!("expected a tuple pattern, got {:?}", other),
    }
    assert!(matches!(l.source, Expression::Binary { op: BinaryOp::Range, .. }));
    assert_eq!(l.body.len(), 1);
}

#[test]
fn test_conditional_and_slot() {
    let src = "if visible { slot(content) }";
    let ast = parse(src).unwrap();
    let c = match &ast.templates[0] {
        TemplateEntry::Conditional(c) => c,
        other => panic!("expected a conditional, got {:?}", other),
    };
    assert!(matches!(c.condition, Expression::Value(Value::Variable(_))));
    assert_eq!(c.body.len(), 1);
    match &c.body[0] {
        TemplateEntry::Slot(e) => assert!(matches!(e, Expression::Value(Value::Variable(_)))),
        other => panic!("expected a slot, got {:?}", other),
    }
}

#[test]
fn test_enum_variant_and_function_call() {
    let src = "<A x=Color::RED y=rgb(1, 2, 3)/>";
    let ast = parse(src).unwrap();
    let tag = match &ast.templates[0] {
        TemplateEntry::Tag(t) => t,
        other => panic!("expected a tag, got {:?}", other),
    };
    match &tag.attributes[0] {
        Attribute::Field(f) => match &f.value {
            Expression::Value(Value::EnumVariant(ev)) => {
                assert_eq!(slice(src, ev.name.0), "Color");
                assert_eq!(slice(src, ev.variant.0), "RED");
                assert_eq!(ev.arguments.len(), 0);
            },
            other => panic!("expected an enum variant, got {:?}", other),
        },
        other => panic!("expected a field, got {:?}", other),
    }
    match &tag.attributes[1] {
        Attribute::Field(f) => match &f.value {
            Expression::Value(Value::FunctionCall(fc)) => {
                assert_eq!(slice(src, fc.name.0), "rgb");
                assert_eq!(fc.arguments.len(), 3);
            },
            other => panic!("expected a function call, got {:?}", other),
        },
        other => panic!("expected a field, got {:?}", other),
    }
}

#[test]
fn test_variable_path() {
    let src = "<A x=foo.bar/>";
    let ast = parse(src).unwrap();
    let tag = match &ast.templates[0] {
        TemplateEntry::Tag(t) => t,
        other => panic!("expected a tag, got {:?}", other),
    };
    match &tag.attributes[0] {
        Attribute::Field(f) => match &f.value {
            Expression::Value(Value::Variable(path)) => {
                assert_eq!(path.len(), 2);
                assert_eq!(slice(src, path[0].0), "foo");
                assert_eq!(slice(src, path[1].0), "bar");
            },
            other => panic!("expected a variable path, got {:?}", other),
        },
        other => panic!("expected a field, got {:?}", other),
    }
}

#[test]
fn test_list_and_tuple_values() {
    let src = "<A x=[1, 2,] y=(3, 4)/>";
    let ast = parse(src).unwrap();
    let tag = match &ast.templates[0] {
        TemplateEntry::Tag(t) => t,
        other => panic!("expected a tag, got {:?}", other),
    };
    match &tag.attributes[0] {
        Attribute::Field(f) => match &f.value {
            Expression::Value(Value::List(es)) => assert_eq!(es.len(), 2),
            other => panic!("expected a list, got {:?}", other),
        },
        other => panic!("expected a field, got {:?}", other),
    }
    match &tag.attributes[1] {
        Attribute::Field(f) => match &f.value {
            Expression::Value(Value::Tuple(es)) => assert_eq!(es.len(), 2),
            other => panic!("expected a tuple, got {:?}", other),
        },
        other => panic!("expected a field, got {:?}", other),
    }
}

#[test]
fn test_named_object_value() {
    let src = "<A fill=LinearGradient { from: red, to: blue }/>";
    let ast = parse(src).unwrap();
    let tag = match &ast.templates[0] {
        TemplateEntry::Tag(t) => t,
        other => panic!("expected a tag, got {:?}", other),
    };
    match &tag.attributes[0] {
        Attribute::Field(f) => match &f.value {
            Expression::Value(Value::Object(o)) => {
                assert_eq!(slice(src, o.name.as_ref().unwrap().0), "LinearGradient");
                assert_eq!(o.fields.len(), 2);
            },
            other => panic!("expected an object, got {:?}", other),
        },
        other => panic!("expected a field, got {:?}", other),
    }
}

#[test]
fn test_top_level_error_lists_expected_kinds() {
    let src = "]";
    let err = parse(src).unwrap_err();
    assert_eq!(err.short_description, "unexpected character(s)");
    assert_eq!(err.annotations.len(), 1);
    assert_eq!(err.annotations[0].annotation_type, AnnotationType::Primary);
    assert_eq!(err.annotations[0].span, Span { start: 0, end: 1 });
    assert_eq!(err.annotations[0].text, "expected <, @ or EOF");
}

#[test]
fn test_top_level_closing_tag_is_rejected() {
    let err = parse("</A>").unwrap_err();
    assert_eq!(err.short_description, "unexpected character(s)");
    assert_eq!(err.annotations[0].text, "expected <, @ or EOF");
}

#[test]
fn test_non_settings_top_level_block() {
    let src = "@foo {}";
    let err = parse(src).unwrap_err();
    assert_eq!(err.short_description, "expected settings block");
    assert_eq!(err.annotations.len(), 1);
    assert_eq!(err.annotations[0].annotation_type, AnnotationType::Primary);
    assert_eq!(slice(src, err.annotations[0].span), "foo");
    assert_eq!(err.annotations[0].text, "only settings allowed in top level context");
}

#[test]
fn test_expression_error_lists_nine_kinds() {
    let src = "<A x={*}/>";
    let err = parse(src).unwrap_err();
    assert_eq!(err.short_description, "unexpected character(s)");
    assert_eq!(
        err.annotations[0].text,
        "expected identifier, integer, float, {, string, [, (, ! or -"
    );
}

#[test]
fn test_unknown_character_fails_in_a_meaningful_position() {
    assert!(parse("<A x=\u{00a7}/>").is_err());
}

#[test]
fn test_unclosed_tag_reports_error() {
    assert!(parse("<A>").is_err());
}

#[test]
fn test_is_map_next_lookahead() {
    assert!(Parser::new(b"{a: 1}").is_map_next());
    assert!(Parser::new(b"Grad { x: 1 }").is_map_next());
    assert!(Parser::new(b"{ // note\n x: 1 }").is_map_next());
    assert!(!Parser::new(b"{1 + 2}").is_map_next());
    assert!(!Parser::new(b"{a + 2}").is_map_next());
    assert!(!Parser::new(b"foo").is_map_next());
}

#[test]
fn test_is_map_next_is_pure() {
    let p = Parser::new(b"{a: 1}");
    let first = p.is_map_next();
    let second = p.is_map_next();
    assert_eq!(first, second);
}

#[test]
fn test_expression_stops_before_closing_tag_slash() {
    // a '/' directly followed by '>' marks a closing tag, not division:
    // the expression ends and both tokens stay unconsumed
    let mut p = Parser::new(b"a/>");
    let e = p.expression().unwrap();
    assert!(matches!(e, Expression::Value(Value::Variable(_))));
    assert!(!p.is_at_eof());

    let mut q = Parser::new(b"a/b");
    let d = q.expression().unwrap();
    assert!(matches!(d, Expression::Binary { op: BinaryOp::Div, .. }));
    assert!(q.is_at_eof());
}

#[test]
fn test_two_comment_only_lines() {
    let src = "// a\n// b";
    let ast = parse(src).unwrap();
    assert_eq!(ast.templates.len(), 2);
    match (&ast.templates[0], &ast.templates[1]) {
        (TemplateEntry::Comment(a), TemplateEntry::Comment(b)) => {
            assert_eq!(slice(src, a.0), "// a");
            assert_eq!(slice(src, b.0), "// b");
        },
        other => panic!("expected two comments, got {:?}", other),
    }
}

#[test]
fn test_is_at_eof() {
    assert!(Parser::new(b"").is_at_eof());
    let mut p = Parser::new(b"<A/>");
    assert!(!p.is_at_eof());
    p.pax().unwrap();
    assert!(p.is_at_eof());
}

#[test]
fn test_expect_and_expect_sequence() {
    let mut p = Parser::new(b"<a>");
    let t = p.expect(TokenKind::OpenAngBrack).unwrap();
    assert_eq!(t.span, Span { start: 0, end: 1 });
    let v = p
        .expect_sequence(&[TokenKind::Identifier, TokenKind::CloseAngBrack])
        .unwrap();
    assert_eq!(v.len(), 2);
    assert_eq!(v[0].kind, TokenKind::Identifier);

    let mut q = Parser::new(b"<");
    let err = q.expect(TokenKind::Identifier).unwrap_err();
    assert_eq!(err.short_description, "unexpected character(s)");
    assert_eq!(err.annotations[0].text, "expected identifier");
}

#[test]
fn test_error_builder_marks_first_annotation_primary() {
    let e = PaxParseError::new("boom")
        .annotation(Span { start: 0, end: 1 }, "first")
        .annotation(Span { start: 2, end: 3 }, "second");
    assert_eq!(e.short_description, "boom");
    assert_eq!(e.annotations.len(), 2);
    assert_eq!(e.annotations[0].annotation_type, AnnotationType::Primary);
    assert_eq!(e.annotations[1].annotation_type, AnnotationType::Secondary);
    assert!(e.help.is_none());
}

#[test]
fn test_source_of() {
    let p = Parser::new(b"xabcy");
    assert_eq!(p.source_of(Span { start: 1, end: 4 }), b"abc");
}

#[test]
fn test_full_example_parses() {
    let src = "\
// a small user interface
<Stack>
  <Rect width=100px height={h + 10} @click=on_click bind:data=model/>
  for (i, item) in items {
    <Row label=self.item.name/>
  }
  if visible {
    slot(content)
  }
</Stack>
@settings {
  @did_mount: setup,
  .primary { color: Color::RED, weight: bold }
  #root { width: 100%, transform: rotate(45deg) }
}
";
    let ast = parse(src).unwrap();
    assert_eq!(ast.templates.len(), 2);
    assert!(matches!(ast.templates[0], TemplateEntry::Comment(_)));
    match &ast.templates[1] {
        TemplateEntry::Tag(t) => {
            assert_eq!(slice(src, t.name.0), "Stack");
            assert_eq!(t.body.len(), 3);
        },
        other => panic!("expected a tag, got {:?}", other),
    }
    assert_eq!(ast.settings.len(), 3);
    assert!(matches!(ast.settings[0], SettingsEntry::Handler(_)));
    assert!(matches!(ast.settings[1], SettingsEntry::Class(_)));
    assert!(matches!(ast.settings[2], SettingsEntry::Id(_)));
}

#[test]
fn test_settings_comment_entry() {
    let src = "@settings { // note\n }";
    let ast = parse(src).unwrap();
    assert_eq!(ast.settings.len(), 1);
    assert!(matches!(ast.settings[0], SettingsEntry::Comment(_)));
}
