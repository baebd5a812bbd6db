//! Grammar rules shared between expressions and settings: the map/object
//! forms and the lookahead predicate that tells a map from a braced
//! expression.

use vstd::prelude::*;

use crate::ast::common::Comment;
use crate::ast::common::Field;
use crate::ast::common::FieldOrComment;
use crate::ast::common::Identifier;
use crate::ast::common::field_or_comment_wf;
use crate::ast::expression::Object;
use crate::ast::expression::object_wf;
use crate::parser::Parser;
use crate::parser::errors::PaxParseError;
use crate::parser::grammar::advance;
use crate::parser::grammar::spec_map;
use crate::parser::grammar::spec_map_items;
use crate::ast::expression::Value;
use crate::parser::grammar::spec_object;
use crate::ast::shape::FieldShape;
use crate::ast::shape::field_shape;
use crate::ast::shape::fields_shape;
use crate::ast::shape::value_shape;
use crate::ast::shape::lemma_fields_shape_push;
use crate::parser::grammar::spec_map_items_tree;
use crate::parser::grammar::spec_object_tree;
use crate::token::Token;
use crate::token::TokenKind;

verus! {

/// The kind of the token at position `i` of `toks`, `EOF` past the end.
pub open spec fn kind_at(toks: Seq<Token>, i: int) -> TokenKind {
    if 0 <= i < toks.len() {
        toks[i].kind
    } else {
        TokenKind::EOF
    }
}

/// The first position at or after `i` of `toks` whose token is not a
/// comment.
pub open spec fn spec_skip_comments(toks: Seq<Token>, i: int) -> int
    decreases toks.len() - i,
    when 0 <= i
{
    if kind_at(toks, i) == TokenKind::Comment {
        spec_skip_comments(toks, i + 1)
    } else {
        i
    }
}

/// Whether the tokens of `toks` from position `at` on open a map: an
/// optional identifier (the map's type name), an opening brace, any number
/// of comments, then an identifier followed by a colon.
pub open spec fn spec_map_next(toks: Seq<Token>, at: int) -> bool {
    let la: int = if kind_at(toks, at) == TokenKind::Identifier {
        1
    } else {
        0
    };
    if kind_at(toks, at + la) != TokenKind::OpenCurlBrack {
        false
    } else {
        let j = spec_skip_comments(toks, at + la + 1);
        kind_at(toks, j) == TokenKind::Identifier && kind_at(toks, j + 1) == TokenKind::Colon
    }
}

impl<'src> Parser<'src> {
    /// Whether the tokens ahead of the cursor open a map.
    pub open spec fn spec_is_map_next(&self) -> bool {
        spec_map_next(self.toks(), self.at())
    }

    /// Peeks far enough ahead to tell whether the next node is a map, as
    /// opposed to an expression wrapped in `{ .. }`. Pure lookahead: the
    /// parser state is untouched.
    pub fn is_map_next(&self) -> (r: bool)
        requires
            self.wf(),
        ensures
            r == self.spec_is_map_next(),
    {
        let mut lookahead: usize = 0;
        // skip an identifier if present (the name of the map, such as
        // `LinearGradient {}`)
        if self.peek_token() == TokenKind::Identifier {
            lookahead = 1;
        }
        // expect an opening curly bracket
        if self.peek_nth_token(lookahead) != TokenKind::OpenCurlBrack {
            return false;
        }
        let ghost base = self.at() + lookahead + 1;
        lookahead = lookahead + 1;
        // skip any number of comment tokens
        while self.peek_nth_token(lookahead) == TokenKind::Comment
            invariant
                self.wf(),
                base <= self.at() + lookahead,
                spec_skip_comments(self.toks(), base) == spec_skip_comments(
                    self.toks(),
                    self.at() + lookahead,
                ),
                self.at() + lookahead <= self.toks().len(),
            decreases self.toks().len() - self.at() - lookahead,
        {
            proof {
                assert(self.at() + lookahead < self.toks().len());
                assert(self.tokens.len() == self.toks().len());
            }
            lookahead = lookahead + 1;
        }
        // expect an identifier, then a colon
        if self.peek_nth_token(lookahead) != TokenKind::Identifier {
            return false;
        }
        proof {
            assert(self.at() + lookahead < self.toks().len());
            assert(self.tokens.len() == self.toks().len());
        }
        self.peek_nth_token(lookahead + 1) == TokenKind::Colon
    }

    /// Parses an object: an optional leading identifier naming its type,
    /// then a map of fields.
    pub fn object(&mut self) -> (r: Result<Object, PaxParseError>)
        requires
            old(self).wf(),
        ensures
            final(self).advanced_from(old(self)),
            r matches Ok(o) ==> object_wf(o, old(self).source()) && final(self).at() > old(
                self,
            ).at(),
            r matches Ok(o) ==> if old(self).peek_kind() == TokenKind::Identifier {
                o.name == Some(Identifier(old(self).cur().span))
            } else {
                o.name is None
            },
            spec_object(old(self).toks(), old(self).at()) == (if r is Ok {
                Some(final(self).at())
            } else {
                None::<int>
            }),
            r matches Ok(o) ==> value_shape(Value::Object(o)) == spec_object_tree(
                old(self).toks(),
                old(self).at(),
            ),
        decreases old(self).toks().len() - old(self).at(), 7int,
    {
        self.push_context("Object (<optional ident> {foo: .. bar: ..})");
        let r = self.object_rule();
        self.pop_context();
        proof {
            assert(final(self).ctx() =~= old(self).ctx());
        }
        r
    }

    #[verifier::rlimit(60)]
    fn object_rule(&mut self) -> (r: Result<Object, PaxParseError>)
        requires
            old(self).wf(),
        ensures
            final(self).source() == old(self).source(),
            final(self).toks() == old(self).toks(),
            final(self).ctx() == old(self).ctx(),
            old(self).at() <= final(self).at() <= final(self).toks().len(),
            r matches Ok(o) ==> object_wf(o, old(self).source()) && final(self).at() > old(
                self,
            ).at(),
            r matches Ok(o) ==> if old(self).peek_kind() == TokenKind::Identifier {
                o.name == Some(Identifier(old(self).cur().span))
            } else {
                o.name is None
            },
            spec_object(old(self).toks(), old(self).at()) == (if r is Ok {
                Some(final(self).at())
            } else {
                None::<int>
            }),
            r matches Ok(o) ==> value_shape(Value::Object(o)) == spec_object_tree(
                old(self).toks(),
                old(self).at(),
            ),
        decreases old(self).toks().len() - old(self).at(), 6int,
    {
        let name = match self.next_token_if(TokenKind::Identifier) {
            Some(t) => Some(Identifier(t.span)),
            None => None,
        };
        let fields = self.map()?;
        Ok(Object { name, fields })
    }

    /// Parses a map: `{` then any number of `ident: value` fields with
    /// optional trailing commas, interleaved with comments, up to `}`.
    pub fn map(&mut self) -> (r: Result<Vec<FieldOrComment>, PaxParseError>)
        requires
            old(self).wf(),
        ensures
            final(self).advanced_from(old(self)),
            r matches Ok(entries) ==> (forall|i: int|
                0 <= i < entries@.len() ==> field_or_comment_wf(
                    #[trigger] entries@[i],
                    old(self).source(),
                )) && final(self).at() > old(self).at(),
            old(self).peek_kind() != TokenKind::OpenCurlBrack ==> r is Err,
            spec_map(old(self).toks(), old(self).at()) == (if r is Ok {
                Some(final(self).at())
            } else {
                None::<int>
            }),
            r matches Ok(entries) ==> fields_shape(entries@) == spec_map_items_tree(
                old(self).toks(),
                old(self).at() + 1,
            ),
        decreases old(self).toks().len() - old(self).at(), 5int,
    {
        self.push_context("Map ({foo: .. bar: ..})");
        let r = self.map_rule();
        self.pop_context();
        proof {
            assert(final(self).ctx() =~= old(self).ctx());
        }
        r
    }

    /// Parses one `ident : value` field of a map, with its optional
    /// trailing comma.
    #[verifier::rlimit(60)]
    fn map_field(&mut self) -> (r: Result<FieldOrComment, PaxParseError>)
        requires
            old(self).wf(),
            old(self).peek_kind() == TokenKind::Identifier,
        ensures
            final(self).source() == old(self).source(),
            final(self).toks() == old(self).toks(),
            final(self).ctx() == old(self).ctx(),
            old(self).at() <= final(self).at() <= final(self).toks().len(),
            r matches Ok(f) ==> field_or_comment_wf(f, old(self).source()) && final(self).at()
                > old(self).at() && spec_map_items(old(self).toks(), old(self).at())
                == spec_map_items(old(self).toks(), final(self).at()) && spec_map_items_tree(
                old(self).toks(),
                old(self).at(),
            ) == seq![field_shape(f)] + spec_map_items_tree(old(self).toks(), final(self).at()),
            r is Err ==> spec_map_items(old(self).toks(), old(self).at()) is None,
        decreases old(self).toks().len() - old(self).at(), 4int,
    {
        let key = self.next_token();
        self.expect(TokenKind::Colon)?;
        let ghost lowe_at = self.at();
        let value = self.literal_or_wrapped_expression()?;
        // skip a comma between fields if there is one
        let _ = self.next_token_if(TokenKind::Comma);
        proof {
            assert(advance(old(self).at(), self.at(), self.toks().len() as int) == self.at());
        }
        Ok(FieldOrComment::Field(Field { key: Identifier(key.span), value }))
    }

    #[verifier::spinoff_prover]
    #[verifier::rlimit(100)]
    fn map_rule(&mut self) -> (r: Result<Vec<FieldOrComment>, PaxParseError>)
        requires
            old(self).wf(),
        ensures
            final(self).source() == old(self).source(),
            final(self).toks() == old(self).toks(),
            final(self).ctx() == old(self).ctx(),
            old(self).at() <= final(self).at() <= final(self).toks().len(),
            r matches Ok(entries) ==> (forall|i: int|
                0 <= i < entries@.len() ==> field_or_comment_wf(
                    #[trigger] entries@[i],
                    old(self).source(),
                )) && final(self).at() > old(self).at(),
            old(self).peek_kind() != TokenKind::OpenCurlBrack ==> r is Err,
            spec_map(old(self).toks(), old(self).at()) == (if r is Ok {
                Some(final(self).at())
            } else {
                None::<int>
            }),
            r matches Ok(entries) ==> fields_shape(entries@) == spec_map_items_tree(
                old(self).toks(),
                old(self).at() + 1,
            ),
        decreases old(self).toks().len() - old(self).at(), 4int,
    {
        self.expect(TokenKind::OpenCurlBrack)?;
        proof {
            assert(spec_map(self.toks(), old(self).at()) == spec_map_items(
                self.toks(),
                old(self).at() + 1,
            ));
        }
        let mut entries: Vec<FieldOrComment> = Vec::new();
        loop
            invariant
                self.wf(),
                old(self).wf(),
                self.advanced_from(old(self)),
                self.at() > old(self).at(),
                old(self).peek_kind() == TokenKind::OpenCurlBrack,
                spec_map(self.toks(), old(self).at()) == spec_map_items(self.toks(), self.at()),
                spec_map_items(self.toks(), self.at()) is Some ==> spec_map_items_tree(
                    self.toks(),
                    old(self).at() + 1,
                ) == fields_shape(entries@) + spec_map_items_tree(self.toks(), self.at()),
                forall|i: int|
                    0 <= i < entries@.len() ==> field_or_comment_wf(
                        #[trigger] entries@[i],
                        old(self).source(),
                    ),
            decreases self.toks().len() - self.at(),
        {
            let ghost head = self.at();
            let ghost dv0 = fields_shape(entries@);
            let k = self.peek_token();
            if k == TokenKind::Identifier {
                let f = self.map_field()?;
                let ghost entries0 = entries@;
                let ghost gf = f;
                entries.push(f);
                proof {
                    lemma_fields_shape_push(entries0, gf);
                    assert(dv0 + spec_map_items_tree(self.toks(), head) =~= fields_shape(entries@)
                        + spec_map_items_tree(self.toks(), self.at()));
                }
            } else if k == TokenKind::Comment {
                let c = self.next_token();
                let ghost entries0 = entries@;
                let ghost ge = FieldOrComment::Comment(Comment(c.span));
                entries.push(FieldOrComment::Comment(Comment(c.span)));
                proof {
                    lemma_fields_shape_push(entries0, ge);
                    assert(spec_map_items_tree(self.toks(), head) == seq![ge.deep_view()]
                        + spec_map_items_tree(self.toks(), self.at()));
                    assert(dv0 + spec_map_items_tree(self.toks(), head) =~= fields_shape(entries@)
                        + spec_map_items_tree(self.toks(), self.at()));
                }
            } else if k == TokenKind::CloseCurlBrack {
                let _ = self.next_token();
                proof {
                    assert(spec_map_items_tree(self.toks(), head) =~= Seq::<FieldShape>::empty());
                    assert(fields_shape(entries@) + Seq::<FieldShape>::empty() =~= fields_shape(
                        entries@,
                    ));
                }
                return Ok(entries);
            } else {
                return Err(self.error(&[TokenKind::Identifier]));
            }
        }
    }
}

} // verus!
