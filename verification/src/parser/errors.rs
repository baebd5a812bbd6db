//! The diagnostic model, and the parser's expectation helpers.
//!
//! A diagnostic carries a short description, an ordered list of annotations
//! each labelling a span, and an optional help string. The first annotation
//! added is primary; all later ones are secondary.

use vstd::prelude::*;

use crate::parser::Parser;
use crate::span::Span;
use crate::token::Token;
use crate::token::TokenKind;
use crate::token::kind_name;
use crate::token::kind_text;

verus! {

/// Whether an annotation labels the offending span itself or related
/// context.
#[derive(Debug, Clone, Copy, PartialEq, Eq, Structural)]
pub enum AnnotationType {
    Primary,
    Secondary,
}

/// One labelled span of a diagnostic.
#[derive(Debug, PartialEq)]
pub struct Annotation {
    pub span: Span,
    pub text: String,
    pub annotation_type: AnnotationType,
}

/// A structured parse diagnostic: a short description, ordered annotations,
/// and an optional help string.
#[derive(Debug, PartialEq)]
pub struct PaxParseError {
    pub short_description: String,
    pub annotations: Vec<Annotation>,
    pub help: Option<String>,
}

/// The annotation labels `span` with the text `text` and the given
/// primary/secondary marker.
pub open spec fn annotation_is(a: Annotation, span: Span, text: Seq<char>, primary: bool) -> bool {
    &&& a.span == span
    &&& a.text@ == text
    &&& (a.annotation_type is Primary <==> primary)
}

/// The message list for an expectation of several kinds, joined with
/// commas: `k1, k2, .., kN`.
pub open spec fn comma_join(kinds: Seq<TokenKind>) -> Seq<char>
    decreases kinds.len(),
{
    if kinds.len() == 0 {
        Seq::empty()
    } else if kinds.len() == 1 {
        kind_text(kinds[0])
    } else {
        comma_join(kinds.drop_last()) + ", "@ + kind_text(kinds.last())
    }
}

/// The body of an expectation message: `X` for one kind, `k1, k2 or kN`
/// for several, and a placeholder for none.
pub open spec fn expected_list(kinds: Seq<TokenKind>) -> Seq<char> {
    if kinds.len() == 0 {
        "<unspecificed>"@
    } else if kinds.len() == 1 {
        kind_text(kinds[0])
    } else {
        comma_join(kinds.drop_last()) + " or "@ + kind_text(kinds.last())
    }
}

/// The full text of an expectation message.
pub open spec fn expected_text(kinds: Seq<TokenKind>) -> Seq<char> {
    "expected "@ + expected_list(kinds)
}

/// The diagnostic raised whenever the next token does not match: an
/// "unexpected character(s)" description with a single primary annotation
/// at `span` whose message enumerates the acceptable kinds.
pub open spec fn expected_err(e: PaxParseError, span: Span, kinds: Seq<TokenKind>) -> bool {
    &&& e.short_description@ == "unexpected character(s)"@
    &&& e.annotations@.len() == 1
    &&& annotation_is(e.annotations@[0], span, expected_text(kinds), true)
    &&& e.help is None
}

impl PaxParseError {
    /// A diagnostic with the given description and no annotations yet.
    pub fn new(short_description: &str) -> (e: PaxParseError)
        ensures
            e.short_description@ == short_description@,
            e.annotations@ == Seq::<Annotation>::empty(),
            e.help is None,
    {
        PaxParseError {
            short_description: String::from_str(short_description),
            annotations: Vec::new(),
            help: None,
        }
    }

    /// Adds an annotation labelling `span` with `text`. The first
    /// annotation of a diagnostic is primary, every later one secondary.
    pub fn annotation(self, span: Span, text: &str) -> (r: PaxParseError)
        ensures
            r.short_description == self.short_description,
            r.help == self.help,
            r.annotations@.len() == self.annotations@.len() + 1,
            forall|i: int|
                0 <= i < self.annotations@.len() ==> r.annotations@[i] == self.annotations@[i],
            annotation_is(
                r.annotations@[self.annotations@.len() as int],
                span,
                text@,
                self.annotations@.len() == 0,
            ),
    {
        let mut r = self;
        let annotation_type = if r.annotations.len() == 0 {
            AnnotationType::Primary
        } else {
            AnnotationType::Secondary
        };
        r.annotations.push(
            Annotation { span, text: String::from_str(text), annotation_type },
        );
        r
    }
}

impl<'src> Parser<'src> {
    /// All of the next `kinds.len()` tokens have the expected kinds.
    pub open spec fn kinds_match(&self, kinds: Seq<TokenKind>) -> bool {
        forall|j: int| 0 <= j < kinds.len() ==> self.peek_kind_at(j) == kinds[j]
    }

    /// Consumes the next token and requires it to have kind `token`,
    /// returning it; any other kind is a diagnostic at the consumed
    /// token's span.
    pub fn expect(&mut self, token: TokenKind) -> (r: Result<Token, PaxParseError>)
        requires
            old(self).wf(),
        ensures
            final(self).advanced_from(old(self)),
            final(self).at() == if old(self).at() < old(self).toks().len() {
                old(self).at() + 1
            } else {
                old(self).at()
            },
            old(self).cur().kind == token ==> r == Ok::<Token, PaxParseError>(old(self).cur()),
            old(self).cur().kind != token ==> (r matches Err(e) && expected_err(
                e,
                old(self).cur().span,
                seq![token],
            )),
    {
        let next = self.next_token();
        if next.kind == token {
            Ok(next)
        } else {
            Err(self.expected_with_span(next.span, &[token]))
        }
    }

    /// Consumes one token per expected kind, in order, returning them all;
    /// the first mismatch is a diagnostic. Succeeds exactly when the next
    /// tokens match `expected` kind for kind.
    pub fn expect_sequence(&mut self, expected: &[TokenKind]) -> (r: Result<
        Vec<Token>,
        PaxParseError,
    >)
        requires
            old(self).wf(),
        ensures
            final(self).advanced_from(old(self)),
            final(self).at() <= old(self).at() + expected@.len(),
            r is Ok <==> old(self).kinds_match(expected@),
            r matches Ok(v) ==> v@.len() == expected@.len() && (forall|j: int|
                0 <= j < expected@.len() ==> v@[j] == old(self).cur_at(j)) && final(self).at()
                == if old(self).at() + expected@.len() <= old(self).toks().len() {
                old(self).at() + expected@.len()
            } else {
                old(self).toks().len() as int
            },
            r matches Err(e) ==> exists|j: int|
                0 <= j < expected@.len() && (forall|l: int|
                    0 <= l < j ==> old(self).peek_kind_at(l) == expected@[l]) && #[trigger] old(
                    self,
                ).peek_kind_at(j) != expected@[j] && expected_err(
                    e,
                    old(self).cur_at(j).span,
                    seq![expected@[j]],
                ) && final(self).at() == (if old(self).at() + j + 1 <= old(self).toks().len() {
                    old(self).at() + j + 1
                } else {
                    old(self).toks().len() as int
                }),
    {
        let ghost o = *old(self);
        let mut values: Vec<Token> = Vec::new();
        let mut i: usize = 0;
        while i < expected.len()
            invariant
                o == *old(self),
                self.wf(),
                self.advanced_from(&o),
                o.wf(),
                0 <= i <= expected@.len(),
                values@.len() == i as int,
                forall|j: int| 0 <= j < i ==> values@[j] == o.cur_at(j),
                forall|j: int| 0 <= j < i ==> o.peek_kind_at(j) == expected@[j],
                self.at() == if o.at() + i <= o.toks().len() {
                    o.at() + i
                } else {
                    o.toks().len() as int
                },
            decreases expected@.len() - i,
        {
            let ghost before = *self;
            match self.expect(expected[i]) {
                Ok(t) => {
                    proof {
                        assert(before.cur() == o.cur_at(i as int));
                    }
                    values.push(t);
                },
                Err(e) => {
                    proof {
                        assert(before.cur().kind == o.peek_kind_at(i as int));
                        assert(o.peek_kind_at(i as int) != expected@[i as int]);
                        assert(!o.kinds_match(expected@));
                        assert(before.cur() == o.cur_at(i as int));
                        assert(expected_err(e, o.cur_at(i as int).span, seq![expected@[i as int]]));
                        assert(self.at() == (if o.at() + i + 1 <= o.toks().len() {
                            o.at() + i + 1
                        } else {
                            o.toks().len() as int
                        }));
                    }
                    return Err(e);
                },
            }
            i = i + 1;
        }
        Ok(values)
    }

    /// Consumes the offending token and builds the "unexpected
    /// character(s)" diagnostic at its span, enumerating the kinds that
    /// would have been acceptable.
    pub fn error(&mut self, expected_tokens: &[TokenKind]) -> (e: PaxParseError)
        requires
            old(self).wf(),
        ensures
            final(self).advanced_from(old(self)),
            final(self).at() == if old(self).at() < old(self).toks().len() {
                old(self).at() + 1
            } else {
                old(self).at()
            },
            expected_err(e, old(self).cur().span, expected_tokens@),
    {
        let tok = self.next_token();
        self.expected_with_span(tok.span, expected_tokens)
    }

    /// Builds the "unexpected character(s)" diagnostic for `span`.
    pub(crate) fn expected_with_span(&self, span: Span, tokens: &[TokenKind]) -> (e: PaxParseError)
        ensures
            expected_err(e, span, tokens@),
    {
        let mut expect_str = String::from_str("expected ");
        if tokens.len() == 0 {
            expect_str.append("<unspecificed>");
            proof {
                assert(expect_str@ =~= expected_text(tokens@));
            }
        } else if tokens.len() == 1 {
            expect_str.append(kind_name(tokens[0]));
            proof {
                assert(expect_str@ =~= expected_text(tokens@));
            }
        } else {
            let last = tokens.len() - 1;
            let mut i: usize = 0;
            while i < last
                invariant
                    1 <= last < tokens@.len(),
                    0 <= i <= last,
                    expect_str@ == "expected "@ + comma_join(tokens@.take(i as int)),
                decreases last - i,
            {
                let ghost prefix = tokens@.take(i as int);
                if i > 0 {
                    expect_str.append(", ");
                }
                expect_str.append(kind_name(tokens[i]));
                proof {
                    let next_prefix = tokens@.take(i as int + 1);
                    assert(next_prefix.drop_last() =~= prefix);
                    assert(next_prefix.last() == tokens@[i as int]);
                    if i == 0 {
                        assert(expect_str@ =~= "expected "@ + comma_join(next_prefix));
                    } else {
                        assert(comma_join(next_prefix) =~= comma_join(prefix) + ", "@ + kind_text(
                            tokens@[i as int],
                        ));
                        assert(expect_str@ =~= "expected "@ + comma_join(next_prefix));
                    }
                }
                i = i + 1;
            }
            expect_str.append(" or ");
            expect_str.append(kind_name(tokens[last]));
            proof {
                assert(tokens@.take(last as int) =~= tokens@.drop_last());
                assert(expect_str@ =~= expected_text(tokens@));
            }
        }
        PaxParseError::new("unexpected character(s)").annotation(span, expect_str.as_str())
    }
}

} // verus!
