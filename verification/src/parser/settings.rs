//! Settings rules: the `@settings { .. }` block and its entries.

use vstd::prelude::*;

use crate::ast::common::Comment;
use crate::ast::common::Handler;
use crate::ast::common::Identifier;
use crate::ast::common::handler_wf;
use crate::ast::settings::Class;
use crate::ast::settings::Id;
use crate::ast::settings::SettingsEntry;
use crate::ast::settings::class_wf;
use crate::ast::settings::id_wf;
use crate::ast::settings::settings_entry_wf;
use crate::parser::errors::annotation_is;
use crate::parser::Parser;
use crate::parser::errors::PaxParseError;
use crate::parser::grammar::advance;
use crate::ast::shape::SettingsShape;
use crate::ast::shape::class_shape;
use crate::ast::shape::id_shape;
use crate::ast::shape::lemma_settings_shape_push;
use crate::ast::shape::settings_entry_shape;
use crate::parser::grammar::spec_class;
use crate::parser::grammar::spec_class_tree;
use crate::parser::grammar::spec_id_tree;
use crate::parser::grammar::spec_handler;
use crate::parser::grammar::spec_id;
use crate::parser::grammar::spec_settings;
use crate::parser::grammar::spec_settings_items;
use crate::span::Span;
use crate::span::span_wf;
use crate::token::TokenKind;

verus! {

/// The lexeme that introduces the one block allowed at top level beside
/// templates: `settings`.
pub open spec fn settings_bytes() -> Seq<u8> {
    seq![
        's' as u8,
        'e' as u8,
        't' as u8,
        't' as u8,
        'i' as u8,
        'n' as u8,
        'g' as u8,
        's' as u8,
    ]
}

/// The diagnostic for an `@name { .. }` block whose name is not
/// `settings`: one primary annotation on the offending identifier.
pub open spec fn settings_block_err(e: PaxParseError, span: Span) -> bool {
    &&& e.short_description@ == "expected settings block"@
    &&& e.annotations@.len() == 1
    &&& annotation_is(e.annotations@[0], span, "only settings allowed in top level context"@, true)
    &&& e.help is None
}

impl<'src> Parser<'src> {
    /// Whether `span` slices to exactly the lexeme `settings`.
    fn span_is_settings(&self, s: Span) -> (r: bool)
        requires
            self.wf(),
            span_wf(s, self.source()),
        ensures
            r == (self.slice_of(s) == settings_bytes()),
    {
        let ghost lex = self.slice_of(s);
        if s.end - s.start != 8 {
            assert(lex.len() != 8);
            return false;
        }
        let b = s.start as usize;
        let r = self.src[b] == ('s' as u8) && self.src[b + 1] == ('e' as u8) && self.src[b + 2]
            == ('t' as u8) && self.src[b + 3] == ('t' as u8) && self.src[b + 4] == ('i' as u8)
            && self.src[b + 5] == ('n' as u8) && self.src[b + 6] == ('g' as u8) && self.src[b + 7]
            == ('s' as u8);
        proof {
            assert(forall|j: int| 0 <= j < 8 ==> lex[j] == self.source()[s.start + j]);
            if r {
                assert(lex =~= settings_bytes());
            } else {
                assert(lex != settings_bytes());
            }
        }
        r
    }

    /// Parses a settings block: `@settings {` then handlers, classes, ids
    /// and comments, with optional commas between entries, up to `}`. An
    /// `@name` block whose identifier is not `settings` is rejected with a
    /// diagnostic on that identifier.
    pub fn settings(&mut self) -> (r: Result<Vec<SettingsEntry>, PaxParseError>)
        requires
            old(self).wf(),
        ensures
            final(self).advanced_from(old(self)),
            r matches Ok(entries) ==> (forall|i: int|
                0 <= i < entries@.len() ==> settings_entry_wf(
                    #[trigger] entries@[i],
                    old(self).source(),
                )) && final(self).at() > old(self).at(),
            old(self).peek_kind() != TokenKind::AtSymbol ==> r is Err,
            r is Ok ==> old(self).kinds_match(
                seq![TokenKind::AtSymbol, TokenKind::Identifier, TokenKind::OpenCurlBrack],
            ) && old(self).slice_of(old(self).cur_at(1).span) == settings_bytes(),
            (old(self).kinds_match(
                seq![TokenKind::AtSymbol, TokenKind::Identifier, TokenKind::OpenCurlBrack],
            ) && old(self).slice_of(old(self).cur_at(1).span) != settings_bytes()) ==> (r matches Err(e)
                && settings_block_err(e, old(self).cur_at(1).span)),
            spec_settings(old(self).source(), old(self).toks(), old(self).at()) == (if r is Ok {
                Some(final(self).at())
            } else {
                None::<int>
            }),
        decreases old(self).toks().len() - old(self).at(), 5int,
    {
        self.push_context("Settings");
        let r = self.settings_rule();
        self.pop_context();
        proof {
            assert(final(self).ctx() =~= old(self).ctx());
        }
        r
    }

    #[verifier::spinoff_prover]
    #[verifier::rlimit(100)]
    fn settings_rule(&mut self) -> (r: Result<Vec<SettingsEntry>, PaxParseError>)
        requires
            old(self).wf(),
        ensures
            final(self).source() == old(self).source(),
            final(self).toks() == old(self).toks(),
            final(self).ctx() == old(self).ctx(),
            old(self).at() <= final(self).at() <= final(self).toks().len(),
            r matches Ok(entries) ==> (forall|i: int|
                0 <= i < entries@.len() ==> settings_entry_wf(
                    #[trigger] entries@[i],
                    old(self).source(),
                )) && final(self).at() > old(self).at(),
            old(self).peek_kind() != TokenKind::AtSymbol ==> r is Err,
            r is Ok ==> old(self).kinds_match(
                seq![TokenKind::AtSymbol, TokenKind::Identifier, TokenKind::OpenCurlBrack],
            ) && old(self).slice_of(old(self).cur_at(1).span) == settings_bytes(),
            (old(self).kinds_match(
                seq![TokenKind::AtSymbol, TokenKind::Identifier, TokenKind::OpenCurlBrack],
            ) && old(self).slice_of(old(self).cur_at(1).span) != settings_bytes()) ==> (r matches Err(e)
                && settings_block_err(e, old(self).cur_at(1).span)),
            spec_settings(old(self).source(), old(self).toks(), old(self).at()) == (if r is Ok {
                Some(final(self).at())
            } else {
                None::<int>
            }),
        decreases old(self).toks().len() - old(self).at(), 4int,
    {
        let v = self.expect_sequence(
            &[TokenKind::AtSymbol, TokenKind::Identifier, TokenKind::OpenCurlBrack],
        )?;
        let ident = v[1];
        if !self.span_is_settings(ident.span) {
            return Err(
                PaxParseError::new("expected settings block").annotation(
                    ident.span,
                    "only settings allowed in top level context",
                ),
            );
        }
        proof {
            assert(spec_settings(old(self).source(), old(self).toks(), old(self).at())
                == spec_settings_items(old(self).toks(), old(self).at() + 3));
        }
        let mut entries: Vec<SettingsEntry> = Vec::new();
        loop
            invariant
                self.wf(),
                old(self).wf(),
                self.advanced_from(old(self)),
                self.at() > old(self).at(),
                old(self).peek_kind() == TokenKind::AtSymbol,
                old(self).kinds_match(
                    seq![TokenKind::AtSymbol, TokenKind::Identifier, TokenKind::OpenCurlBrack],
                ),
                old(self).slice_of(old(self).cur_at(1).span) == settings_bytes(),
                spec_settings(old(self).source(), self.toks(), old(self).at())
                    == spec_settings_items(self.toks(), self.at()),
                forall|i: int|
                    0 <= i < entries@.len() ==> settings_entry_wf(
                        #[trigger] entries@[i],
                        old(self).source(),
                    ),
            decreases self.toks().len() - self.at(),
        {
            let ghost head = self.at();
            let ghost acc0 = entries@;
            let k = self.peek_token();
            if k == TokenKind::AtSymbol {
                let h = self.handler()?;
                let ghost gh = h;
                entries.push(SettingsEntry::Handler(h));
                proof {
                    reveal(spec_handler);
                    lemma_settings_shape_push(acc0, SettingsEntry::Handler(gh));
                    assert(settings_entry_shape(SettingsEntry::Handler(gh))
                        == SettingsShape::Handler(gh));
                    assert(gh.key == Identifier(self.toks()[head + 1].span));
                    assert(gh.value == Identifier(self.toks()[head + 3].span));
                }
            } else if k == TokenKind::Period {
                let c = self.class()?;
                let ghost gc = c;
                entries.push(SettingsEntry::Class(c));
                proof {
                    reveal(spec_class);
                    reveal(spec_class_tree);
                    lemma_settings_shape_push(acc0, SettingsEntry::Class(gc));
                    assert(settings_entry_shape(SettingsEntry::Class(gc)) == class_shape(gc));
                }
            } else if k == TokenKind::Hashtag {
                let i = self.id()?;
                let ghost gi = i;
                entries.push(SettingsEntry::Id(i));
                proof {
                    reveal(spec_id);
                    reveal(spec_id_tree);
                    lemma_settings_shape_push(acc0, SettingsEntry::Id(gi));
                    assert(settings_entry_shape(SettingsEntry::Id(gi)) == id_shape(gi));
                }
            } else if k == TokenKind::Comment {
                let c = self.expect(TokenKind::Comment)?;
                let ghost ge = SettingsEntry::Comment(Comment(c.span));
                entries.push(SettingsEntry::Comment(Comment(c.span)));
                proof {
                    lemma_settings_shape_push(acc0, ge);
                    assert(settings_entry_shape(ge) == SettingsShape::Comment(Comment(c.span)));
                }
            } else if k == TokenKind::CloseCurlBrack {
                let _ = self.next_token();
                return Ok(entries);
            } else {
                return Err(
                    self.error(
                        &[
                            TokenKind::AtSymbol,
                            TokenKind::Period,
                            TokenKind::Hashtag,
                            TokenKind::Comment,
                            TokenKind::CloseCurlBrack,
                        ],
                    ),
                );
            }
            // skip a comma between entries if there is one
            let _ = self.next_token_if(TokenKind::Comma);
            proof {
                assert(advance(head, self.at(), self.toks().len() as int) == self.at());
            }
        }
    }

    /// Parses a settings handler: `@event: callback`.
    pub(crate) fn handler(&mut self) -> (r: Result<Handler, PaxParseError>)
        requires
            old(self).wf(),
        ensures
            final(self).advanced_from(old(self)),
            r matches Ok(h) ==> handler_wf(h, old(self).source()) && final(self).at() > old(
                self,
            ).at(),
            old(self).peek_kind() != TokenKind::AtSymbol ==> r is Err,
            r matches Ok(h) ==> h.key.0 == old(self).cur_at(1).span && h.value.0 == old(
                self,
            ).cur_at(3).span,
            spec_handler(old(self).toks(), old(self).at()) == (if r is Ok {
                Some(final(self).at())
            } else {
                None::<int>
            }),
        decreases old(self).toks().len() - old(self).at(), 3int,
    {
        proof {
            reveal(spec_handler);
        }
        self.push_context("Handler (@handler=foo)");
        let r = self.handler_rule();
        self.pop_context();
        proof {
            assert(final(self).ctx() =~= old(self).ctx());
        }
        r
    }

    fn handler_rule(&mut self) -> (r: Result<Handler, PaxParseError>)
        requires
            old(self).wf(),
        ensures
            final(self).source() == old(self).source(),
            final(self).toks() == old(self).toks(),
            final(self).ctx() == old(self).ctx(),
            old(self).at() <= final(self).at() <= final(self).toks().len(),
            r matches Ok(h) ==> handler_wf(h, old(self).source()) && final(self).at() > old(
                self,
            ).at(),
            old(self).peek_kind() != TokenKind::AtSymbol ==> r is Err,
            r matches Ok(h) ==> h.key.0 == old(self).cur_at(1).span && h.value.0 == old(
                self,
            ).cur_at(3).span,
            spec_handler(old(self).toks(), old(self).at()) == (if r is Ok {
                Some(final(self).at())
            } else {
                None::<int>
            }),
        decreases old(self).toks().len() - old(self).at(), 2int,
    {
        proof {
            reveal(spec_handler);
        }
        let v = self.expect_sequence(
            &[TokenKind::AtSymbol, TokenKind::Identifier, TokenKind::Colon, TokenKind::Identifier],
        )?;
        Ok(Handler { key: Identifier(v[1].span), value: Identifier(v[3].span) })
    }

    /// Parses a class style: `.name { map }`.
    pub(crate) fn class(&mut self) -> (r: Result<Class, PaxParseError>)
        requires
            old(self).wf(),
        ensures
            final(self).advanced_from(old(self)),
            r matches Ok(c) ==> class_wf(c, old(self).source()) && final(self).at() > old(
                self,
            ).at(),
            old(self).peek_kind() != TokenKind::Period ==> r is Err,
            r matches Ok(c) ==> c.name.0 == old(self).cur_at(1).span,
            spec_class(old(self).toks(), old(self).at()) == (if r is Ok {
                Some(final(self).at())
            } else {
                None::<int>
            }),
            r matches Ok(c) ==> class_shape(c) == spec_class_tree(
                old(self).toks(),
                old(self).at(),
            ),
        decreases old(self).toks().len() - old(self).at(), 7int,
    {
        proof {
            reveal(spec_class);
            reveal(spec_class_tree);
        }
        self.push_context("Class (.a_class {..})");
        let r = self.class_rule();
        self.pop_context();
        proof {
            assert(final(self).ctx() =~= old(self).ctx());
        }
        r
    }

    fn class_rule(&mut self) -> (r: Result<Class, PaxParseError>)
        requires
            old(self).wf(),
        ensures
            final(self).source() == old(self).source(),
            final(self).toks() == old(self).toks(),
            final(self).ctx() == old(self).ctx(),
            old(self).at() <= final(self).at() <= final(self).toks().len(),
            r matches Ok(c) ==> class_wf(c, old(self).source()) && final(self).at() > old(
                self,
            ).at(),
            old(self).peek_kind() != TokenKind::Period ==> r is Err,
            r matches Ok(c) ==> c.name.0 == old(self).cur_at(1).span,
            spec_class(old(self).toks(), old(self).at()) == (if r is Ok {
                Some(final(self).at())
            } else {
                None::<int>
            }),
            r matches Ok(c) ==> class_shape(c) == spec_class_tree(
                old(self).toks(),
                old(self).at(),
            ),
        decreases old(self).toks().len() - old(self).at(), 6int,
    {
        proof {
            reveal(spec_class);
            reveal(spec_class_tree);
        }
        self.expect(TokenKind::Period)?;
        let name = self.expect(TokenKind::Identifier)?;
        let body = self.map()?;
        Ok(Class { name: Identifier(name.span), binding: body })
    }

    /// Parses an id style: `#name { map }`.
    pub(crate) fn id(&mut self) -> (r: Result<Id, PaxParseError>)
        requires
            old(self).wf(),
        ensures
            final(self).advanced_from(old(self)),
            r matches Ok(c) ==> id_wf(c, old(self).source()) && final(self).at() > old(self).at(),
            old(self).peek_kind() != TokenKind::Hashtag ==> r is Err,
            r matches Ok(c) ==> c.name.0 == old(self).cur_at(1).span,
            spec_id(old(self).toks(), old(self).at()) == (if r is Ok {
                Some(final(self).at())
            } else {
                None::<int>
            }),
            r matches Ok(c) ==> id_shape(c) == spec_id_tree(
                old(self).toks(),
                old(self).at(),
            ),
        decreases old(self).toks().len() - old(self).at(), 7int,
    {
        proof {
            reveal(spec_id);
            reveal(spec_id_tree);
        }
        self.push_context("Id (#a_class {..})");
        let r = self.id_rule();
        self.pop_context();
        proof {
            assert(final(self).ctx() =~= old(self).ctx());
        }
        r
    }

    fn id_rule(&mut self) -> (r: Result<Id, PaxParseError>)
        requires
            old(self).wf(),
        ensures
            final(self).source() == old(self).source(),
            final(self).toks() == old(self).toks(),
            final(self).ctx() == old(self).ctx(),
            old(self).at() <= final(self).at() <= final(self).toks().len(),
            r matches Ok(c) ==> id_wf(c, old(self).source()) && final(self).at() > old(self).at(),
            old(self).peek_kind() != TokenKind::Hashtag ==> r is Err,
            r matches Ok(c) ==> c.name.0 == old(self).cur_at(1).span,
            spec_id(old(self).toks(), old(self).at()) == (if r is Ok {
                Some(final(self).at())
            } else {
                None::<int>
            }),
            r matches Ok(c) ==> id_shape(c) == spec_id_tree(
                old(self).toks(),
                old(self).at(),
            ),
        decreases old(self).toks().len() - old(self).at(), 6int,
    {
        proof {
            reveal(spec_id);
            reveal(spec_id_tree);
        }
        self.expect(TokenKind::Hashtag)?;
        let name = self.expect(TokenKind::Identifier)?;
        let body = self.map()?;
        Ok(Id { name: Identifier(name.span), binding: body })
    }
}

} // verus!
