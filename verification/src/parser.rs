//! The parser: a recursive-descent front end over the token stream, with a
//! Pratt core for expressions.
//!
//! A `Parser` owns the fully lexed token sequence of one source buffer and
//! a cursor into it. Every grammar rule advances the cursor and returns
//! either its AST fragment or a single diagnostic; the first diagnostic
//! aborts the parse.

use vstd::prelude::*;

use crate::ast::PaxAst;
use crate::ast::pax_ast_wf;
use crate::ast::template::TemplateEntry;
use crate::ast::template::template_entry_wf;
use crate::ast::settings::SettingsEntry;
use crate::ast::settings::settings_entry_wf;
use crate::lexer::lex;
use crate::parser::grammar::advance;
use crate::parser::grammar::spec_pax;
use crate::parser::errors::expected_err;
use crate::lexer::spec_tokens;
use crate::lexer::lemma_tokens_from_wf;
use crate::lexer::token_wf;
use crate::span::Span;
use crate::span::span_wf;
use crate::token::Token;
use crate::token::TokenKind;

pub mod common;
pub mod errors;
pub mod expression;
pub mod grammar;
pub mod literal;
pub mod settings;
pub mod template;
pub mod value;

use self::errors::PaxParseError;

verus! {

/// The token synthesised at end of input: kind `EOF`, spanning the last
/// byte so that a one-character caret renders, clamped to `[0, 0)` for an
/// empty buffer.
pub open spec fn eof_token(src: Seq<u8>) -> Token {
    Token {
        span: Span {
            start: if src.len() == 0 {
                0
            } else {
                (src.len() - 1) as u32
            },
            end: src.len() as u32,
        },
        kind: TokenKind::EOF,
    }
}

/// Parses a Pax source buffer into an AST.
pub struct Parser<'src> {
    pub(crate) src: &'src [u8],
    pub(crate) tokens: Vec<Token>,
    pub(crate) pos: usize,
    pub(crate) context_stack: Vec<&'static str>,
}

impl<'src> Parser<'src> {
    /// The source buffer being parsed.
    pub closed spec fn source(&self) -> Seq<u8> {
        self.src@
    }

    /// The full token sequence of the source buffer.
    pub closed spec fn toks(&self) -> Seq<Token> {
        self.tokens@
    }

    /// The index of the next token to be consumed.
    pub closed spec fn at(&self) -> int {
        self.pos as int
    }

    /// The stack of contextual labels, innermost rule last.
    pub closed spec fn ctx(&self) -> Seq<&'static str> {
        self.context_stack@
    }

    /// The parser state is well formed: the token sequence is exactly the
    /// lex of the source, every token is well formed for it, and the cursor
    /// is in bounds.
    pub open spec fn wf(&self) -> bool {
        &&& self.source().len() <= u32::MAX
        &&& self.toks() == spec_tokens(self.source())
        &&& 0 <= self.at() <= self.toks().len()
        &&& forall|i: int|
            0 <= i < self.toks().len() ==> token_wf(self.source(), #[trigger] self.toks()[i])
    }

    /// The kind of the token `i` positions ahead of the cursor, `EOF` past
    /// the end.
    pub open spec fn peek_kind_at(&self, i: int) -> TokenKind {
        if self.at() + i < self.toks().len() {
            self.toks()[self.at() + i].kind
        } else {
            TokenKind::EOF
        }
    }

    /// The kind of the next token, `EOF` past the end.
    pub open spec fn peek_kind(&self) -> TokenKind {
        self.peek_kind_at(0)
    }

    /// The token `i` positions ahead of the cursor, the synthesised `EOF`
    /// token past the end.
    pub open spec fn cur_at(&self, i: int) -> Token {
        if self.at() + i < self.toks().len() {
            self.toks()[self.at() + i]
        } else {
            eof_token(self.source())
        }
    }

    /// The next token, the synthesised `EOF` token past the end.
    pub open spec fn cur(&self) -> Token {
        self.cur_at(0)
    }

    /// How every parsing step relates the new state to the old: the source,
    /// the token sequence and the context stack are untouched, and the
    /// cursor only moves forward, staying in bounds.
    pub open spec fn advanced_from(&self, o: &Self) -> bool {
        &&& self.source() == o.source()
        &&& self.toks() == o.toks()
        &&& self.ctx() == o.ctx()
        &&& o.at() <= self.at() <= self.toks().len()
    }

    /// The byte slice of `src` that `span` covers.
    pub open spec fn slice_of(&self, span: Span) -> Seq<u8> {
        self.source().subrange(span.start as int, span.end as int)
    }

    /// A parser at the start of `source`.
    pub fn new(source: &'src [u8]) -> (p: Parser<'src>)
        requires
            source@.len() <= u32::MAX,
        ensures
            p.wf(),
            p.source() == source@,
            p.toks() == spec_tokens(source@),
            p.at() == 0,
            p.ctx() == Seq::<&'static str>::empty(),
    {
        let tokens = lex(source);
        proof {
            lemma_tokens_from_wf(source@, 0);
        }
        Parser { src: source, tokens, pos: 0, context_stack: Vec::new() }
    }

    /// Parses a whole Pax source file: any number of template entries and
    /// settings blocks, in any order, up to end of input. On success every
    /// node of the returned tree is well formed for the source buffer; an
    /// empty token stream gives an empty tree. A stray closing tag at top
    /// level is rejected, as is any other token that opens neither a
    /// template entry nor a settings block.
    pub fn pax(&mut self) -> (r: Result<PaxAst, PaxParseError>)
        requires
            old(self).wf(),
        ensures
            final(self).advanced_from(old(self)),
            r matches Ok(ast) ==> pax_ast_wf(ast, old(self).source()) && final(self).at()
                == final(self).toks().len(),
            old(self).peek_kind() == TokenKind::EOF ==> (r matches Ok(ast) && ast.templates@.len()
                == 0 && ast.settings@.len() == 0),
            (old(self).peek_kind() == TokenKind::OpenAngBrack && old(self).peek_kind_at(1)
                == TokenKind::Slash) ==> r is Err,
            !(old(self).peek_kind() == TokenKind::OpenAngBrack || old(self).peek_kind()
                == TokenKind::For || old(self).peek_kind() == TokenKind::If || old(
                self,
            ).peek_kind() == TokenKind::Slot || old(self).peek_kind() == TokenKind::Comment || old(
                self,
            ).peek_kind() == TokenKind::AtSymbol || old(self).peek_kind() == TokenKind::EOF) ==> (
            r matches Err(e) && expected_err(
                e,
                old(self).cur().span,
                seq![TokenKind::OpenAngBrack, TokenKind::AtSymbol, TokenKind::EOF],
            )),
            spec_pax(old(self).source(), old(self).toks(), old(self).at()) == (if r is Ok {
                Some(final(self).at())
            } else {
                None::<int>
            }),
    {
        let mut templates: Vec<TemplateEntry> = Vec::new();
        let mut settings: Vec<SettingsEntry> = Vec::new();
        loop
            invariant_except_break
                self.wf(),
                old(self).wf(),
                self.advanced_from(old(self)),
                old(self).peek_kind() == TokenKind::EOF ==> self.at() == old(self).at()
                    && templates@.len() == 0 && settings@.len() == 0,
                (old(self).peek_kind() == TokenKind::OpenAngBrack && old(self).peek_kind_at(1)
                    == TokenKind::Slash) ==> self.at() == old(self).at(),
                !(old(self).peek_kind() == TokenKind::OpenAngBrack || old(self).peek_kind()
                    == TokenKind::For || old(self).peek_kind() == TokenKind::If || old(
                    self,
                ).peek_kind() == TokenKind::Slot || old(self).peek_kind() == TokenKind::Comment
                    || old(self).peek_kind() == TokenKind::AtSymbol || old(self).peek_kind()
                    == TokenKind::EOF) ==> self.at() == old(self).at(),
                spec_pax(self.source(), self.toks(), old(self).at()) == spec_pax(
                    self.source(),
                    self.toks(),
                    self.at(),
                ),
                forall|i: int|
                    0 <= i < templates@.len() ==> template_entry_wf(
                        #[trigger] templates@[i],
                        old(self).source(),
                    ),
                forall|i: int|
                    0 <= i < settings@.len() ==> settings_entry_wf(
                        #[trigger] settings@[i],
                        old(self).source(),
                    ),
            ensures
                self.wf(),
                self.advanced_from(old(self)),
                self.peek_kind() == TokenKind::EOF,
                old(self).peek_kind() == TokenKind::EOF ==> templates@.len() == 0
                    && settings@.len() == 0,
                (old(self).peek_kind() == TokenKind::OpenAngBrack && old(self).peek_kind_at(1)
                    == TokenKind::Slash) ==> self.at() == old(self).at(),
                spec_pax(self.source(), self.toks(), old(self).at()) == Some(self.at() as int),
                forall|i: int|
                    0 <= i < templates@.len() ==> template_entry_wf(
                        #[trigger] templates@[i],
                        old(self).source(),
                    ),
                forall|i: int|
                    0 <= i < settings@.len() ==> settings_entry_wf(
                        #[trigger] settings@[i],
                        old(self).source(),
                    ),
            decreases self.toks().len() - self.at(),
        {
            let k = self.peek_token();
            if k == TokenKind::OpenAngBrack || k == TokenKind::For || k == TokenKind::If || k
                == TokenKind::Slot || k == TokenKind::Comment {
                if k == TokenKind::OpenAngBrack && self.peek_nth_token(1) == TokenKind::Slash {
                    // a stray closing tag opens no template entry
                    return Err(
                        self.error(
                            &[TokenKind::OpenAngBrack, TokenKind::AtSymbol, TokenKind::EOF],
                        ),
                    );
                }
                let ghost before = *self;
                let mut entries = self.template()?;
                proof {
                    // the template started on a template starter and
                    // stopped on a stopper, so it consumed at least one
                    // token
                    if self.at() == before.at() {
                        assert(self.peek_kind() == before.peek_kind());
                        assert(self.peek_kind_at(1) == before.peek_kind_at(1));
                        assert(false);
                    }
                    assert(advance(before.at(), self.at(), self.toks().len() as int)
                        == self.at());
                }
                templates.append(&mut entries);
            } else if k == TokenKind::AtSymbol {
                let ghost head = self.at();
                let mut entries = self.settings()?;
                proof {
                    assert(advance(head, self.at(), self.toks().len() as int) == self.at());
                }
                settings.append(&mut entries);
            } else if k == TokenKind::EOF {
                break;
            } else {
                return Err(
                    self.error(&[TokenKind::OpenAngBrack, TokenKind::AtSymbol, TokenKind::EOF]),
                );
            }
        }
        Ok(PaxAst { templates, settings })
    }

    /// Whether the whole token stream has been consumed.
    pub fn is_at_eof(&self) -> (r: bool)
        requires
            self.wf(),
        ensures
            r == (self.peek_kind() == TokenKind::EOF),
    {
        self.peek_token() == TokenKind::EOF
    }

    /// The kind of the next token without consuming it.
    pub(crate) fn peek_token(&self) -> (k: TokenKind)
        requires
            self.wf(),
        ensures
            k == self.peek_kind(),
    {
        if self.pos < self.tokens.len() {
            self.tokens[self.pos].kind
        } else {
            TokenKind::EOF
        }
    }

    /// The kind of the token `i` positions ahead without consuming
    /// anything.
    pub(crate) fn peek_nth_token(&self, i: usize) -> (k: TokenKind)
        requires
            self.wf(),
        ensures
            k == self.peek_kind_at(i as int),
    {
        if i < self.tokens.len() - self.pos {
            self.tokens[self.pos + i].kind
        } else {
            TokenKind::EOF
        }
    }

    /// Consumes and returns the next token; at end of input returns the
    /// synthesised `EOF` token without moving.
    pub(crate) fn next_token(&mut self) -> (t: Token)
        requires
            old(self).wf(),
        ensures
            final(self).advanced_from(old(self)),
            t == old(self).cur(),
            final(self).at() == if old(self).at() < old(self).toks().len() {
                old(self).at() + 1
            } else {
                old(self).at()
            },
    {
        if self.pos < self.tokens.len() {
            let t = self.tokens[self.pos];
            self.pos = self.pos + 1;
            t
        } else {
            let len = self.src.len();
            let start = if len == 0 {
                0
            } else {
                len - 1
            };
            Token { span: Span { start: start as u32, end: len as u32 }, kind: TokenKind::EOF }
        }
    }

    /// Consumes the next token exactly when it has kind `kind`; otherwise
    /// consumes nothing.
    pub(crate) fn next_token_if(&mut self, kind: TokenKind) -> (r: Option<Token>)
        requires
            old(self).wf(),
        ensures
            final(self).advanced_from(old(self)),
            if old(self).peek_kind() == kind && old(self).at() < old(self).toks().len() {
                r == Some(old(self).toks()[old(self).at()]) && final(self).at() == old(self).at()
                    + 1
            } else {
                r is None && final(self).at() == old(self).at()
            },
    {
        if self.pos < self.tokens.len() && self.peek_token() == kind {
            Some(self.next_token())
        } else {
            None
        }
    }

    /// Pushes a contextual label on entry to a named grammar rule.
    pub(crate) fn push_context(&mut self, context: &'static str)
        ensures
            final(self).source() == old(self).source(),
            final(self).toks() == old(self).toks(),
            final(self).at() == old(self).at(),
            final(self).ctx() == old(self).ctx().push(context),
    {
        self.context_stack.push(context);
    }

    /// Pops the innermost contextual label on exit from a rule.
    pub(crate) fn pop_context(&mut self)
        ensures
            final(self).source() == old(self).source(),
            final(self).toks() == old(self).toks(),
            final(self).at() == old(self).at(),
            final(self).ctx() == if old(self).ctx().len() > 0 {
                old(self).ctx().drop_last()
            } else {
                old(self).ctx()
            },
    {
        let _ = self.context_stack.pop();
    }

    /// The source bytes that `span` covers.
    pub fn source_of(&self, span: Span) -> (r: &[u8])
        requires
            self.wf(),
            span_wf(span, self.source()),
        ensures
            r@ == self.slice_of(span),
    {
        &self.src[span.start as usize..span.end as usize]
    }

    /// Whether two spans slice to byte-wise equal source text.
    pub(crate) fn spans_slice_eq(&self, a: Span, b: Span) -> (r: bool)
        requires
            self.wf(),
            span_wf(a, self.source()),
            span_wf(b, self.source()),
        ensures
            r == (self.slice_of(a) == self.slice_of(b)),
    {
        let ghost sa = self.slice_of(a);
        let ghost sb = self.slice_of(b);
        let la = a.end - a.start;
        let lb = b.end - b.start;
        if la != lb {
            assert(sa.len() != sb.len());
            return false;
        }
        let mut i: u32 = 0;
        while i < la
            invariant
                self.wf(),
                span_wf(a, self.source()),
                span_wf(b, self.source()),
                la == a.end - a.start == b.end - b.start,
                sa == self.slice_of(a),
                sb == self.slice_of(b),
                0 <= i <= la,
                forall|j: int| 0 <= j < i ==> sa[j] == sb[j],
            decreases la - i,
        {
            if self.src[(a.start + i) as usize] != self.src[(b.start + i) as usize] {
                assert(sa[i as int] != sb[i as int]);
                return false;
            }
            i = i + 1;
        }
        proof {
            assert(sa =~= sb);
        }
        true
    }
}

} // verus!
