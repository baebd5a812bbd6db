//! Template rules: template trees, tags, attributes, loops, conditionals
//! and slots.

use vstd::prelude::*;

use crate::ast::common::Comment;
use crate::ast::common::Field;
use crate::ast::common::Handler;
use crate::ast::common::Identifier;
use crate::ast::expression::Expression;
use crate::ast::expression::expression_wf;
use crate::ast::template::Attribute;
use crate::ast::template::Binding;
use crate::ast::template::Conditional;
use crate::ast::template::Loop;
use crate::ast::template::MatchPattern;
use crate::ast::template::Tag;
use crate::ast::template::TemplateEntry;
use crate::ast::template::attribute_wf;
use crate::ast::template::conditional_wf;
use crate::ast::template::loop_wf;
use crate::ast::template::tag_wf;
use crate::ast::template::template_entry_wf;
use crate::parser::Parser;
use crate::parser::common::kind_at;
use crate::parser::errors::PaxParseError;
use crate::parser::grammar::advance;
use crate::ast::shape::AttributeShape;
use crate::ast::shape::TemplateShape;
use crate::ast::shape::attribute_shape;
use crate::ast::shape::attrs_shape;
use crate::ast::shape::conditional_shape;
use crate::ast::shape::expr_shape;
use crate::ast::shape::lemma_attrs_shape_push;
use crate::ast::shape::lemma_templates_shape_push;
use crate::ast::shape::loop_shape;
use crate::ast::shape::tag_shape;
use crate::ast::shape::template_entry_shape;
use crate::ast::shape::templates_shape;
use crate::parser::grammar::spec_attribute;
use crate::parser::grammar::spec_attribute_tree;
use crate::parser::grammar::spec_attrs_tree;
use crate::parser::grammar::spec_condition_tree;
use crate::parser::grammar::spec_expr_tree;
use crate::parser::grammar::spec_for_loop_tree;
use crate::parser::grammar::spec_tag_tree;
use crate::parser::grammar::spec_template_tree;
use crate::parser::grammar::spec_attrs;
use crate::parser::grammar::spec_literal_or_wrapped;
use crate::parser::grammar::spec_condition;
use crate::parser::grammar::spec_for_loop;
use crate::parser::grammar::spec_slot;
use crate::parser::grammar::spec_tag;
use crate::parser::grammar::spec_template;
use crate::token::Token;
use crate::token::TokenKind;

verus! {

/// The token kinds at which a template ends without an error: a closing
/// brace, a settings block, end of input, or a closing tag (`<` followed by
/// `/`).
pub open spec fn template_stopper(toks: Seq<Token>, at: int) -> bool {
    ||| kind_at(toks, at) == TokenKind::CloseCurlBrack
    ||| kind_at(toks, at) == TokenKind::AtSymbol
    ||| kind_at(toks, at) == TokenKind::EOF
    ||| (kind_at(toks, at) == TokenKind::OpenAngBrack && kind_at(toks, at + 1) == TokenKind::Slash)
}

impl<'src> Parser<'src> {
    /// Parses template entries until one of the stopper tokens: `}`, `@`,
    /// end of input, or an `</..>` closer.
    pub fn template(&mut self) -> (r: Result<Vec<TemplateEntry>, PaxParseError>)
        requires
            old(self).wf(),
        ensures
            final(self).advanced_from(old(self)),
            r matches Ok(es) ==> (forall|i: int|
                0 <= i < es@.len() ==> template_entry_wf(#[trigger] es@[i], old(self).source()))
                && template_stopper(final(self).toks(), final(self).at()),
            r matches Ok(es) ==> templates_shape(es@) == spec_template_tree(
                old(self).source(),
                old(self).toks(),
                old(self).at(),
            ),
            spec_template(old(self).source(), old(self).toks(), old(self).at()) == (if r is Ok {
                Some(final(self).at())
            } else {
                None::<int>
            }),
        decreases old(self).toks().len() - old(self).at(), 7int,
    {
        self.push_context("Template");
        let r = self.template_rule();
        self.pop_context();
        proof {
            assert(final(self).ctx() =~= old(self).ctx());
        }
        r
    }

    #[verifier::spinoff_prover]
    #[verifier::rlimit(100)]
    fn template_rule(&mut self) -> (r: Result<Vec<TemplateEntry>, PaxParseError>)
        requires
            old(self).wf(),
        ensures
            final(self).source() == old(self).source(),
            final(self).toks() == old(self).toks(),
            final(self).ctx() == old(self).ctx(),
            old(self).at() <= final(self).at() <= final(self).toks().len(),
            r matches Ok(es) ==> (forall|i: int|
                0 <= i < es@.len() ==> template_entry_wf(#[trigger] es@[i], old(self).source()))
                && template_stopper(final(self).toks(), final(self).at()),
            r matches Ok(es) ==> templates_shape(es@) == spec_template_tree(
                old(self).source(),
                old(self).toks(),
                old(self).at(),
            ),
            spec_template(old(self).source(), old(self).toks(), old(self).at()) == (if r is Ok {
                Some(final(self).at())
            } else {
                None::<int>
            }),
        decreases old(self).toks().len() - old(self).at(), 6int,
    {
        let mut template: Vec<TemplateEntry> = Vec::new();
        loop
            invariant_except_break
                self.wf(),
                old(self).wf(),
                self.advanced_from(old(self)),
                template@.len() == 0 ==> self.at() == old(self).at(),
                spec_template(self.source(), self.toks(), old(self).at()) == spec_template(
                    self.source(),
                    self.toks(),
                    self.at(),
                ),
                spec_template(self.source(), self.toks(), self.at()) is Some
                    ==> spec_template_tree(self.source(), self.toks(), old(self).at())
                    == templates_shape(template@) + spec_template_tree(
                    self.source(),
                    self.toks(),
                    self.at(),
                ),
                forall|i: int|
                    0 <= i < template@.len() ==> template_entry_wf(
                        #[trigger] template@[i],
                        old(self).source(),
                    ),
            ensures
                self.wf(),
                self.advanced_from(old(self)),
                forall|i: int|
                    0 <= i < template@.len() ==> template_entry_wf(
                        #[trigger] template@[i],
                        old(self).source(),
                    ),
                template_stopper(self.toks(), self.at()),
                template@.len() == 0 ==> self.at() == old(self).at(),
                templates_shape(template@) == spec_template_tree(
                    self.source(),
                    self.toks(),
                    old(self).at(),
                ),
                spec_template(self.source(), self.toks(), old(self).at()) == Some(
                    self.at() as int,
                ),
            decreases self.toks().len() - self.at(),
        {
            let ghost head = self.at();
            let ghost dv0 = templates_shape(template@);
            let ghost acc0 = template@;
            let k = self.peek_token();
            if k == TokenKind::CloseCurlBrack || k == TokenKind::AtSymbol || k == TokenKind::EOF {
                proof {
                    assert(spec_template_tree(self.source(), self.toks(), head)
                        =~= Seq::<TemplateShape>::empty());
                    assert(dv0 + Seq::<TemplateShape>::empty() =~= dv0);
                }
                break;
            } else if k == TokenKind::OpenAngBrack {
                if self.peek_nth_token(1) == TokenKind::Slash {
                    proof {
                        assert(spec_template_tree(self.source(), self.toks(), head)
                            =~= Seq::<TemplateShape>::empty());
                        assert(dv0 + Seq::<TemplateShape>::empty() =~= dv0);
                    }
                    break;
                }
                let t = self.tag()?;
                let ghost gt = t;
                template.push(TemplateEntry::Tag(t));
                proof {
                    assert(advance(head, self.at(), self.toks().len() as int) == self.at());
                    lemma_templates_shape_push(acc0, TemplateEntry::Tag(gt));
                    assert(template_entry_shape(TemplateEntry::Tag(gt)) == tag_shape(gt));
                    assert(dv0 + spec_template_tree(self.source(), self.toks(), head)
                        =~= templates_shape(template@) + spec_template_tree(
                        self.source(),
                        self.toks(),
                        self.at(),
                    ));
                }
            } else if k == TokenKind::For {
                let l = self.for_loop()?;
                let ghost gl = l;
                template.push(TemplateEntry::Loop(l));
                proof {
                    assert(advance(head, self.at(), self.toks().len() as int) == self.at());
                    lemma_templates_shape_push(acc0, TemplateEntry::Loop(gl));
                    assert(template_entry_shape(TemplateEntry::Loop(gl)) == loop_shape(gl));
                    assert(dv0 + spec_template_tree(self.source(), self.toks(), head)
                        =~= templates_shape(template@) + spec_template_tree(
                        self.source(),
                        self.toks(),
                        self.at(),
                    ));
                }
            } else if k == TokenKind::If {
                let c = self.condition()?;
                let ghost gc = c;
                template.push(TemplateEntry::Conditional(c));
                proof {
                    assert(advance(head, self.at(), self.toks().len() as int) == self.at());
                    lemma_templates_shape_push(acc0, TemplateEntry::Conditional(gc));
                    assert(template_entry_shape(TemplateEntry::Conditional(gc))
                        == conditional_shape(gc));
                    assert(dv0 + spec_template_tree(self.source(), self.toks(), head)
                        =~= templates_shape(template@) + spec_template_tree(
                        self.source(),
                        self.toks(),
                        self.at(),
                    ));
                }
            } else if k == TokenKind::Slot {
                let s = self.slot()?;
                let ghost gs = s;
                template.push(TemplateEntry::Slot(s));
                proof {
                    assert(advance(head, self.at(), self.toks().len() as int) == self.at());
                    lemma_templates_shape_push(acc0, TemplateEntry::Slot(gs));
                    assert(template_entry_shape(TemplateEntry::Slot(gs)) == TemplateShape::Slot(
                        expr_shape(gs),
                    ));
                    assert(dv0 + spec_template_tree(self.source(), self.toks(), head)
                        =~= templates_shape(template@) + spec_template_tree(
                        self.source(),
                        self.toks(),
                        self.at(),
                    ));
                }
            } else if k == TokenKind::Comment {
                let c = self.expect(TokenKind::Comment)?;
                let ghost ge = TemplateEntry::Comment(Comment(c.span));
                template.push(TemplateEntry::Comment(Comment(c.span)));
                proof {
                    lemma_templates_shape_push(acc0, ge);
                    assert(template_entry_shape(ge) == TemplateShape::Comment(Comment(c.span)));
                    assert(dv0 + spec_template_tree(self.source(), self.toks(), head)
                        =~= templates_shape(template@) + spec_template_tree(
                        self.source(),
                        self.toks(),
                        self.at(),
                    ));
                }
            } else {
                return Err(
                    self.error(
                        &[
                            TokenKind::CloseCurlBrack,
                            TokenKind::OpenAngBrack,
                            TokenKind::For,
                            TokenKind::If,
                            TokenKind::Slot,
                            TokenKind::Comment,
                        ],
                    ),
                );
            }
        }
        Ok(template)
    }

    /// Parses a tag: `<name attributes...>`, then either `/>` for an empty
    /// body or `>` followed by a template and a closing `</name>` whose
    /// identifier must slice to the same source text as the opening name,
    /// byte for byte.
    pub fn tag(&mut self) -> (r: Result<Tag, PaxParseError>)
        requires
            old(self).wf(),
        ensures
            final(self).advanced_from(old(self)),
            r matches Ok(t) ==> tag_wf(t, old(self).source()) && final(self).at() > old(self).at()
                && t.name.0 == old(self).cur_at(1).span && old(self).peek_kind_at(1)
                == TokenKind::Identifier,
            r matches Ok(t) ==> (t.body@.len() > 0 ==> exists|i: int|
                old(self).at() <= i < final(self).at() && (#[trigger] old(self).toks()[i]).kind
                    == TokenKind::Identifier && old(self).slice_of(old(self).toks()[i].span) == old(
                    self,
                ).slice_of(t.name.0)),
            old(self).peek_kind() != TokenKind::OpenAngBrack ==> r is Err,
            spec_tag(old(self).source(), old(self).toks(), old(self).at()) == (if r is Ok {
                Some(final(self).at())
            } else {
                None::<int>
            }),
            r matches Ok(t) ==> tag_shape(t) == spec_tag_tree(
                old(self).source(),
                old(self).toks(),
                old(self).at(),
            ),
        decreases old(self).toks().len() - old(self).at(), 5int,
    {
        proof {
            reveal(spec_tag);
            reveal(spec_tag_tree);
        }
        self.push_context("Tag pair (<tag>..</tag>)");
        let r = self.tag_rule();
        self.pop_context();
        proof {
            assert(final(self).ctx() =~= old(self).ctx());
        }
        r
    }

    #[verifier::spinoff_prover]
    #[verifier::rlimit(100)]
    fn tag_rule(&mut self) -> (r: Result<Tag, PaxParseError>)
        requires
            old(self).wf(),
        ensures
            final(self).source() == old(self).source(),
            final(self).toks() == old(self).toks(),
            final(self).ctx() == old(self).ctx(),
            old(self).at() <= final(self).at() <= final(self).toks().len(),
            r matches Ok(t) ==> tag_wf(t, old(self).source()) && final(self).at() > old(self).at()
                && t.name.0 == old(self).cur_at(1).span && old(self).peek_kind_at(1)
                == TokenKind::Identifier,
            r matches Ok(t) ==> (t.body@.len() > 0 ==> exists|i: int|
                old(self).at() <= i < final(self).at() && (#[trigger] old(self).toks()[i]).kind
                    == TokenKind::Identifier && old(self).slice_of(old(self).toks()[i].span) == old(
                    self,
                ).slice_of(t.name.0)),
            old(self).peek_kind() != TokenKind::OpenAngBrack ==> r is Err,
            spec_tag(old(self).source(), old(self).toks(), old(self).at()) == (if r is Ok {
                Some(final(self).at())
            } else {
                None::<int>
            }),
            r matches Ok(t) ==> tag_shape(t) == spec_tag_tree(
                old(self).source(),
                old(self).toks(),
                old(self).at(),
            ),
        decreases old(self).toks().len() - old(self).at(), 4int,
    {
        proof {
            reveal(spec_tag);
            reveal(spec_tag_tree);
        }
        self.expect(TokenKind::OpenAngBrack)?;
        let name = self.expect(TokenKind::Identifier)?;

        let mut attributes: Vec<Attribute> = Vec::new();
        loop
            invariant_except_break
                self.wf(),
                old(self).wf(),
                self.advanced_from(old(self)),
                self.at() > old(self).at(),
                name == old(self).cur_at(1),
                name.kind == TokenKind::Identifier,
                old(self).at() + 1 < old(self).toks().len(),
                spec_attrs(self.toks(), old(self).at() + 2) == spec_attrs(self.toks(), self.at()),
                spec_attrs(self.toks(), self.at()) is Some ==> spec_attrs_tree(
                    self.toks(),
                    old(self).at() + 2,
                ) == attrs_shape(attributes@) + spec_attrs_tree(self.toks(), self.at()),
                forall|i: int|
                    0 <= i < attributes@.len() ==> attribute_wf(
                        #[trigger] attributes@[i],
                        old(self).source(),
                    ),
            ensures
                self.wf(),
                self.advanced_from(old(self)),
                self.at() > old(self).at(),
                name == old(self).cur_at(1),
                name.kind == TokenKind::Identifier,
                old(self).at() + 1 < old(self).toks().len(),
                self.peek_kind() == TokenKind::CloseAngBrack || self.peek_kind()
                    == TokenKind::Slash,
                spec_attrs(self.toks(), old(self).at() + 2) == Some(self.at() as int),
                attrs_shape(attributes@) == spec_attrs_tree(self.toks(), old(self).at() + 2),
                forall|i: int|
                    0 <= i < attributes@.len() ==> attribute_wf(
                        #[trigger] attributes@[i],
                        old(self).source(),
                    ),
            decreases self.toks().len() - self.at(),
        {
            proof {
                reveal(spec_tag);
                reveal(spec_tag_tree);
            }
            let ghost head = self.at();
            let ghost dv0 = attrs_shape(attributes@);
            let ghost acc0 = attributes@;
            let k = self.peek_token();
            if k == TokenKind::CloseAngBrack || k == TokenKind::Slash {
                proof {
                    assert(spec_attrs_tree(self.toks(), head) =~= Seq::<AttributeShape>::empty());
                    assert(dv0 + Seq::<AttributeShape>::empty() =~= dv0);
                }
                break;
            }
            let a = self.attribute()?;
            let ghost ga = a;
            attributes.push(a);
            proof {
                assert(advance(head, self.at(), self.toks().len() as int) == self.at());
                lemma_attrs_shape_push(acc0, ga);
                assert(dv0 + spec_attrs_tree(self.toks(), head) =~= attrs_shape(attributes@)
                    + spec_attrs_tree(self.toks(), self.at()));
            }
        }

        proof {
            reveal(spec_tag);
            reveal(spec_tag_tree);
        }
        let body: Vec<TemplateEntry>;
        let ghost attrs_end = self.at();
        if self.peek_token() == TokenKind::CloseAngBrack {
            let _ = self.next_token();
            proof {
                assert(advance(old(self).at(), attrs_end + 1, self.toks().len() as int)
                    == attrs_end + 1);
            }
            let inner = self.template()?;
            let ghost pre = self.at();
            let v = self.expect_sequence(
                &[
                    TokenKind::OpenAngBrack,
                    TokenKind::Slash,
                    TokenKind::Identifier,
                    TokenKind::CloseAngBrack,
                ],
            )?;
            let ident = v[2];
            proof {
                assert(pre + 2 < self.toks().len());
                assert(ident == self.toks()[pre + 2]);
            }
            if !self.spans_slice_eq(ident.span, name.span) {
                // the annotation text is fixed: string formatting cannot
                // run in verified code, so the offending name is not
                // interpolated here — its span is what the annotation
                // carries
                return Err(
                    PaxParseError::new("unexpected closing tag").annotation(
                        ident.span,
                        "found closing tag with a different name",
                    ).annotation(name.span, "expected to close this next"),
                );
            }
            proof {
                assert(self.toks()[pre + 2].kind == TokenKind::Identifier && self.slice_of(
                    self.toks()[pre + 2].span,
                ) == self.slice_of(name.span));
            }
            body = inner;
        } else {
            // the attribute loop only stops at `>` or `/`
            let _ = self.next_token();
            self.expect(TokenKind::CloseAngBrack)?;
            body = Vec::new();
        }
        Ok(Tag { name: Identifier(name.span), attributes, body })
    }

    /// Parses one attribute: a handler `@event=callback`, a binding
    /// `bind:key=value`, or a field `key=value`.
    pub(crate) fn attribute(&mut self) -> (r: Result<Attribute, PaxParseError>)
        requires
            old(self).wf(),
        ensures
            final(self).advanced_from(old(self)),
            r matches Ok(a) ==> attribute_wf(a, old(self).source()) && final(self).at() > old(
                self,
            ).at(),
            old(self).peek_kind() != TokenKind::AtSymbol && old(self).peek_kind() != TokenKind::Bind
                && old(self).peek_kind() != TokenKind::Identifier ==> r is Err,
            r matches Ok(a) ==> match a {
                Attribute::Handler(h) => old(self).peek_kind() == TokenKind::AtSymbol && h.key.0
                    == old(self).cur_at(1).span && h.value.0 == old(self).cur_at(3).span,
                Attribute::Binding(b) => old(self).peek_kind() == TokenKind::Bind && b.key.0 == old(
                    self,
                ).cur_at(2).span && b.value.0 == old(self).cur_at(4).span,
                Attribute::Field(f) => old(self).peek_kind() == TokenKind::Identifier && f.key.0
                    == old(self).cur().span,
            },
            spec_attribute(old(self).toks(), old(self).at()) == (if r is Ok {
                Some(final(self).at())
            } else {
                None::<int>
            }),
            r matches Ok(a) ==> attribute_shape(a) == spec_attribute_tree(
                old(self).toks(),
                old(self).at(),
            ),
        decreases old(self).toks().len() - old(self).at(), 5int,
    {
        self.push_context("Attribute (@handler=foo or key=value)");
        let r = self.attribute_rule();
        self.pop_context();
        proof {
            assert(final(self).ctx() =~= old(self).ctx());
        }
        r
    }

    #[verifier::spinoff_prover]
    #[verifier::rlimit(100)]
    fn attribute_rule(&mut self) -> (r: Result<Attribute, PaxParseError>)
        requires
            old(self).wf(),
        ensures
            final(self).source() == old(self).source(),
            final(self).toks() == old(self).toks(),
            final(self).ctx() == old(self).ctx(),
            old(self).at() <= final(self).at() <= final(self).toks().len(),
            r matches Ok(a) ==> attribute_wf(a, old(self).source()) && final(self).at() > old(
                self,
            ).at(),
            old(self).peek_kind() != TokenKind::AtSymbol && old(self).peek_kind() != TokenKind::Bind
                && old(self).peek_kind() != TokenKind::Identifier ==> r is Err,
            r matches Ok(a) ==> match a {
                Attribute::Handler(h) => old(self).peek_kind() == TokenKind::AtSymbol && h.key.0
                    == old(self).cur_at(1).span && h.value.0 == old(self).cur_at(3).span,
                Attribute::Binding(b) => old(self).peek_kind() == TokenKind::Bind && b.key.0 == old(
                    self,
                ).cur_at(2).span && b.value.0 == old(self).cur_at(4).span,
                Attribute::Field(f) => old(self).peek_kind() == TokenKind::Identifier && f.key.0
                    == old(self).cur().span,
            },
            spec_attribute(old(self).toks(), old(self).at()) == (if r is Ok {
                Some(final(self).at())
            } else {
                None::<int>
            }),
            r matches Ok(a) ==> attribute_shape(a) == spec_attribute_tree(
                old(self).toks(),
                old(self).at(),
            ),
        decreases old(self).toks().len() - old(self).at(), 4int,
    {
        let k = self.peek_token();
        if k == TokenKind::AtSymbol {
            self.handler_attribute()
        } else if k == TokenKind::Bind {
            self.binding_attribute()
        } else if k == TokenKind::Identifier {
            self.field_attribute()
        } else {
            proof {
                assert(spec_attribute(old(self).toks(), old(self).at()) is None);
            }
            Err(self.error(&[TokenKind::AtSymbol, TokenKind::Bind, TokenKind::Identifier]))
        }
    }

    fn handler_attribute(&mut self) -> (r: Result<Attribute, PaxParseError>)
        requires
            old(self).wf(),
            old(self).peek_kind() == TokenKind::AtSymbol,
        ensures
            final(self).source() == old(self).source(),
            final(self).toks() == old(self).toks(),
            final(self).ctx() == old(self).ctx(),
            old(self).at() <= final(self).at() <= final(self).toks().len(),
            r matches Ok(a) ==> attribute_wf(a, old(self).source()) && final(self).at() > old(
                self,
            ).at() && (a matches Attribute::Handler(h) && h.key.0 == old(self).cur_at(1).span
                && h.value.0 == old(self).cur_at(3).span),
            spec_attribute(old(self).toks(), old(self).at()) == (if r is Ok {
                Some(final(self).at())
            } else {
                None::<int>
            }),
            r matches Ok(a) ==> attribute_shape(a) == spec_attribute_tree(
                old(self).toks(),
                old(self).at(),
            ),
    {
        let v = self.expect_sequence(
            &[TokenKind::AtSymbol, TokenKind::Identifier, TokenKind::Assign,
                TokenKind::Identifier],
        )?;
        proof {
            assert(spec_attribute(old(self).toks(), old(self).at()) == Some(old(self).at() + 4));
        }
        Ok(
            Attribute::Handler(
                Handler { key: Identifier(v[1].span), value: Identifier(v[3].span) },
            ),
        )
    }

    fn binding_attribute(&mut self) -> (r: Result<Attribute, PaxParseError>)
        requires
            old(self).wf(),
            old(self).peek_kind() == TokenKind::Bind,
        ensures
            final(self).source() == old(self).source(),
            final(self).toks() == old(self).toks(),
            final(self).ctx() == old(self).ctx(),
            old(self).at() <= final(self).at() <= final(self).toks().len(),
            r matches Ok(a) ==> attribute_wf(a, old(self).source()) && final(self).at() > old(
                self,
            ).at() && (a matches Attribute::Binding(b) && b.key.0 == old(self).cur_at(2).span
                && b.value.0 == old(self).cur_at(4).span),
            spec_attribute(old(self).toks(), old(self).at()) == (if r is Ok {
                Some(final(self).at())
            } else {
                None::<int>
            }),
            r matches Ok(a) ==> attribute_shape(a) == spec_attribute_tree(
                old(self).toks(),
                old(self).at(),
            ),
    {
        let v = self.expect_sequence(
            &[TokenKind::Bind, TokenKind::Colon, TokenKind::Identifier, TokenKind::Assign,
                TokenKind::Identifier],
        )?;
        proof {
            assert(spec_attribute(old(self).toks(), old(self).at()) == Some(old(self).at() + 5));
        }
        Ok(
            Attribute::Binding(
                Binding { key: Identifier(v[2].span), value: Identifier(v[4].span) },
            ),
        )
    }

    fn field_attribute(&mut self) -> (r: Result<Attribute, PaxParseError>)
        requires
            old(self).wf(),
            old(self).peek_kind() == TokenKind::Identifier,
        ensures
            final(self).source() == old(self).source(),
            final(self).toks() == old(self).toks(),
            final(self).ctx() == old(self).ctx(),
            old(self).at() <= final(self).at() <= final(self).toks().len(),
            r matches Ok(a) ==> attribute_wf(a, old(self).source()) && final(self).at() > old(
                self,
            ).at() && (a matches Attribute::Field(f) && f.key.0 == old(self).cur().span),
            spec_attribute(old(self).toks(), old(self).at()) == (if r is Ok {
                Some(final(self).at())
            } else {
                None::<int>
            }),
            r matches Ok(a) ==> attribute_shape(a) == spec_attribute_tree(
                old(self).toks(),
                old(self).at(),
            ),
        decreases old(self).toks().len() - old(self).at(), 3int,
    {
        let v = self.expect_sequence(&[TokenKind::Identifier, TokenKind::Assign])?;
        proof {
            assert(old(self).peek_kind_at(1) == TokenKind::Assign);
            assert(spec_attribute(old(self).toks(), old(self).at()) == spec_literal_or_wrapped(
                old(self).toks(),
                old(self).at() + 2,
            ));
        }
        let value = self.literal_or_wrapped_expression()?;
        Ok(Attribute::Field(Field { key: Identifier(v[0].span), value }))
    }

    /// Parses `for pattern in expression { template }`, where the pattern
    /// is a bare identifier or a parenthesised pair.
    pub(crate) fn for_loop(&mut self) -> (r: Result<Loop, PaxParseError>)
        requires
            old(self).wf(),
        ensures
            final(self).advanced_from(old(self)),
            r matches Ok(l) ==> loop_wf(l, old(self).source()) && final(self).at() > old(
                self,
            ).at(),
            old(self).peek_kind() != TokenKind::For ==> r is Err,
            r matches Ok(l) ==> loop_shape(l) == spec_for_loop_tree(
                old(self).source(),
                old(self).toks(),
                old(self).at(),
            ),
            r matches Ok(l) ==> match l.pattern {
                MatchPattern::Tuple(a, b) => old(self).peek_kind_at(1) == TokenKind::OpenParenth
                    && a.0 == old(self).cur_at(2).span && b.0 == old(self).cur_at(4).span,
                MatchPattern::Identifier(id) => old(self).peek_kind_at(1)
                    != TokenKind::OpenParenth && id.0 == old(self).cur_at(1).span,
            },
            spec_for_loop(old(self).source(), old(self).toks(), old(self).at()) == (if r is Ok {
                Some(final(self).at())
            } else {
                None::<int>
            }),
        decreases old(self).toks().len() - old(self).at(), 5int,
    {
        proof {
            reveal(spec_for_loop);
            reveal(spec_for_loop_tree);
        }
        self.push_context("For loop (for i in items {..})");
        let r = self.for_loop_rule();
        self.pop_context();
        proof {
            assert(final(self).ctx() =~= old(self).ctx());
        }
        r
    }

    #[verifier::rlimit(60)]
    fn for_loop_rule(&mut self) -> (r: Result<Loop, PaxParseError>)
        requires
            old(self).wf(),
        ensures
            final(self).source() == old(self).source(),
            final(self).toks() == old(self).toks(),
            final(self).ctx() == old(self).ctx(),
            old(self).at() <= final(self).at() <= final(self).toks().len(),
            r matches Ok(l) ==> loop_wf(l, old(self).source()) && final(self).at() > old(
                self,
            ).at(),
            old(self).peek_kind() != TokenKind::For ==> r is Err,
            r matches Ok(l) ==> loop_shape(l) == spec_for_loop_tree(
                old(self).source(),
                old(self).toks(),
                old(self).at(),
            ),
            r matches Ok(l) ==> match l.pattern {
                MatchPattern::Tuple(a, b) => old(self).peek_kind_at(1) == TokenKind::OpenParenth
                    && a.0 == old(self).cur_at(2).span && b.0 == old(self).cur_at(4).span,
                MatchPattern::Identifier(id) => old(self).peek_kind_at(1)
                    != TokenKind::OpenParenth && id.0 == old(self).cur_at(1).span,
            },
            spec_for_loop(old(self).source(), old(self).toks(), old(self).at()) == (if r is Ok {
                Some(final(self).at())
            } else {
                None::<int>
            }),
        decreases old(self).toks().len() - old(self).at(), 4int,
    {
        proof {
            reveal(spec_for_loop);
            reveal(spec_for_loop_tree);
        }
        self.expect(TokenKind::For)?;

        let pattern = if self.peek_token() == TokenKind::OpenParenth {
            let v = self.expect_sequence(
                &[TokenKind::OpenParenth, TokenKind::Identifier, TokenKind::Comma,
                    TokenKind::Identifier, TokenKind::CloseParenth],
            )?;
            MatchPattern::Tuple(Identifier(v[1].span), Identifier(v[3].span))
        } else {
            let ident = self.expect(TokenKind::Identifier)?;
            MatchPattern::Identifier(Identifier(ident.span))
        };

        let ghost pat_end = self.at();
        self.expect(TokenKind::In)?;
        proof {
            assert(advance(old(self).at(), pat_end + 1, self.toks().len() as int) == pat_end + 1);
        }
        let source = self.expression()?;
        let ghost expr_end = self.at();
        self.expect(TokenKind::OpenCurlBrack)?;
        proof {
            assert(advance(old(self).at(), expr_end + 1, self.toks().len() as int)
                == expr_end + 1);
        }
        let body = self.template()?;
        self.expect(TokenKind::CloseCurlBrack)?;
        Ok(Loop { pattern, source, body })
    }

    /// Parses `if expression { template }`.
    pub(crate) fn condition(&mut self) -> (r: Result<Conditional, PaxParseError>)
        requires
            old(self).wf(),
        ensures
            final(self).advanced_from(old(self)),
            r matches Ok(c) ==> conditional_wf(c, old(self).source()) && final(self).at() > old(
                self,
            ).at(),
            old(self).peek_kind() != TokenKind::If ==> r is Err,
            spec_condition(old(self).source(), old(self).toks(), old(self).at()) == (if r is Ok {
                Some(final(self).at())
            } else {
                None::<int>
            }),
            r matches Ok(c) ==> conditional_shape(c) == spec_condition_tree(
                old(self).source(),
                old(self).toks(),
                old(self).at(),
            ),
        decreases old(self).toks().len() - old(self).at(), 5int,
    {
        proof {
            reveal(spec_condition);
            reveal(spec_condition_tree);
        }
        self.push_context("Condition (if cond {..})");
        let r = self.condition_rule();
        self.pop_context();
        proof {
            assert(final(self).ctx() =~= old(self).ctx());
        }
        r
    }

    fn condition_rule(&mut self) -> (r: Result<Conditional, PaxParseError>)
        requires
            old(self).wf(),
        ensures
            final(self).source() == old(self).source(),
            final(self).toks() == old(self).toks(),
            final(self).ctx() == old(self).ctx(),
            old(self).at() <= final(self).at() <= final(self).toks().len(),
            r matches Ok(c) ==> conditional_wf(c, old(self).source()) && final(self).at() > old(
                self,
            ).at(),
            old(self).peek_kind() != TokenKind::If ==> r is Err,
            spec_condition(old(self).source(), old(self).toks(), old(self).at()) == (if r is Ok {
                Some(final(self).at())
            } else {
                None::<int>
            }),
            r matches Ok(c) ==> conditional_shape(c) == spec_condition_tree(
                old(self).source(),
                old(self).toks(),
                old(self).at(),
            ),
        decreases old(self).toks().len() - old(self).at(), 4int,
    {
        proof {
            reveal(spec_condition);
            reveal(spec_condition_tree);
        }
        self.expect(TokenKind::If)?;
        let condition = self.expression()?;
        let ghost expr_end = self.at();
        self.expect(TokenKind::OpenCurlBrack)?;
        proof {
            assert(advance(old(self).at(), expr_end + 1, self.toks().len() as int)
                == expr_end + 1);
        }
        let body = self.template()?;
        self.expect(TokenKind::CloseCurlBrack)?;
        Ok(Conditional { condition, body })
    }

    /// Parses `slot(expression)`.
    pub(crate) fn slot(&mut self) -> (r: Result<Expression, PaxParseError>)
        requires
            old(self).wf(),
        ensures
            final(self).advanced_from(old(self)),
            r matches Ok(e) ==> expression_wf(e, old(self).source()) && final(self).at() > old(
                self,
            ).at(),
            old(self).peek_kind() != TokenKind::Slot ==> r is Err,
            spec_slot(old(self).toks(), old(self).at()) == (if r is Ok {
                Some(final(self).at())
            } else {
                None::<int>
            }),
            r matches Ok(e) ==> expr_shape(e) == spec_expr_tree(
                old(self).toks(),
                old(self).at() + 2,
                0,
            ),
        decreases old(self).toks().len() - old(self).at(), 5int,
    {
        self.push_context("Slot (slot(..))");
        let r = self.slot_rule();
        self.pop_context();
        proof {
            assert(final(self).ctx() =~= old(self).ctx());
        }
        r
    }

    fn slot_rule(&mut self) -> (r: Result<Expression, PaxParseError>)
        requires
            old(self).wf(),
        ensures
            final(self).source() == old(self).source(),
            final(self).toks() == old(self).toks(),
            final(self).ctx() == old(self).ctx(),
            old(self).at() <= final(self).at() <= final(self).toks().len(),
            r matches Ok(e) ==> expression_wf(e, old(self).source()) && final(self).at() > old(
                self,
            ).at(),
            old(self).peek_kind() != TokenKind::Slot ==> r is Err,
            spec_slot(old(self).toks(), old(self).at()) == (if r is Ok {
                Some(final(self).at())
            } else {
                None::<int>
            }),
            r matches Ok(e) ==> expr_shape(e) == spec_expr_tree(
                old(self).toks(),
                old(self).at() + 2,
                0,
            ),
        decreases old(self).toks().len() - old(self).at(), 4int,
    {
        self.expect_sequence(&[TokenKind::Slot, TokenKind::OpenParenth])?;
        let source = self.expression()?;
        self.expect(TokenKind::CloseParenth)?;
        Ok(source)
    }
}

} // verus!
