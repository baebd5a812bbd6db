//! The lexer: turns the source buffer into a stream of spanned tokens.
//!
//! The source is treated as a byte stream. Whitespace is skipped, comments
//! are kept as tokens, and a byte that starts no known token becomes an
//! [`TokenKind::Unknown`] token, so lexing never fails. The whole behaviour
//! is pinned by the specification functions in this module: `spec_tokens`
//! gives the exact token sequence of a source buffer, and the executable
//! scanner is proved to produce it.

use vstd::prelude::*;

use crate::span::Span;
use crate::span::span_wf;
use crate::token::Token;
use crate::token::TokenKind;

verus! {

// ---------------------------------------------------------------------------
// Byte classes
// ---------------------------------------------------------------------------

/// ASCII whitespace: space, tab, line feed, vertical tab, form feed,
/// carriage return.
pub open spec fn is_ws_byte(b: u8) -> bool {
    b == 32 || b == 9 || b == 10 || b == 11 || b == 12 || b == 13
}

/// The byte length of the whitespace character starting at `i`, or `0`
/// when none does: the ASCII whitespace bytes, and the UTF-8 encodings of
/// the other Unicode whitespace characters (next line, no-break space,
/// ogham space mark, the en/em quads and spaces, the line and paragraph
/// separators, narrow no-break space, medium mathematical space, and the
/// ideographic space).
pub open spec fn ws_len(s: Seq<u8>, i: int) -> int {
    if !(0 <= i < s.len()) {
        0
    } else if is_ws_byte(s[i]) {
        1
    } else if s[i] == 0xC2 && i + 1 < s.len() && (s[i + 1] == 0x85 || s[i + 1] == 0xA0) {
        2
    } else if s[i] == 0xE1 && i + 2 < s.len() && s[i + 1] == 0x9A && s[i + 2] == 0x80 {
        3
    } else if s[i] == 0xE2 && i + 2 < s.len() && s[i + 1] == 0x80 && ((0x80 <= s[i + 2] && s[i + 2]
        <= 0x8A) || s[i + 2] == 0xA8 || s[i + 2] == 0xA9 || s[i + 2] == 0xAF) {
        3
    } else if s[i] == 0xE2 && i + 2 < s.len() && s[i + 1] == 0x81 && s[i + 2] == 0x9F {
        3
    } else if s[i] == 0xE3 && i + 2 < s.len() && s[i + 1] == 0x80 && s[i + 2] == 0x80 {
        3
    } else {
        0
    }
}

/// ASCII letter.
pub open spec fn is_alpha_byte(b: u8) -> bool {
    (('A' as u8) <= b && b <= ('Z' as u8)) || (('a' as u8) <= b && b <= ('z' as u8))
}

/// ASCII digit.
pub open spec fn is_digit_byte(b: u8) -> bool {
    ('0' as u8) <= b && b <= ('9' as u8)
}

/// A byte that may continue an identifier: letter, digit or underscore.
pub open spec fn is_ident_cont_byte(b: u8) -> bool {
    is_alpha_byte(b) || is_digit_byte(b) || b == ('_' as u8)
}

/// An identifier lexeme: a letter followed by letters, digits or
/// underscores.
pub open spec fn is_ident_bytes(b: Seq<u8>) -> bool {
    &&& b.len() > 0
    &&& is_alpha_byte(b[0])
    &&& forall|i: int| 1 <= i < b.len() ==> is_ident_cont_byte(#[trigger] b[i])
}

// ---------------------------------------------------------------------------
// Specification-level scanners
// ---------------------------------------------------------------------------

/// The first position at or after `i` where no whitespace character
/// starts.
pub open spec fn spec_skip_ws(s: Seq<u8>, i: int) -> int
    decreases s.len() - i,
    when 0 <= i <= s.len()
{
    if ws_len(s, i) > 0 {
        spec_skip_ws(s, i + ws_len(s, i))
    } else {
        i
    }
}

/// The first position at or after `i` that cannot continue an identifier.
pub open spec fn spec_scan_ident_end(s: Seq<u8>, i: int) -> int
    decreases s.len() - i,
    when 0 <= i <= s.len()
{
    if i < s.len() && is_ident_cont_byte(s[i]) {
        spec_scan_ident_end(s, i + 1)
    } else {
        i
    }
}

/// The first position at or after `i` that does not hold a digit.
pub open spec fn spec_scan_digits_end(s: Seq<u8>, i: int) -> int
    decreases s.len() - i,
    when 0 <= i <= s.len()
{
    if i < s.len() && is_digit_byte(s[i]) {
        spec_scan_digits_end(s, i + 1)
    } else {
        i
    }
}

/// The first position at or after `i` that holds a line feed, or the end of
/// the buffer.
pub open spec fn spec_scan_comment_end(s: Seq<u8>, i: int) -> int
    decreases s.len() - i,
    when 0 <= i <= s.len()
{
    if i < s.len() && s[i] != 10 {
        spec_scan_comment_end(s, i + 1)
    } else {
        i
    }
}

/// The end of a string lexeme scanned from `i` with escape flag `esc`: one
/// past the closing quote, where a backslash toggles the escape flag and an
/// escaped quote does not terminate. An unterminated string extends to the
/// end of the buffer.
pub open spec fn spec_scan_string_end(s: Seq<u8>, i: int, esc: bool) -> int
    decreases s.len() - i,
    when 0 <= i <= s.len()
{
    if i >= s.len() {
        i
    } else if s[i] == 92 {
        spec_scan_string_end(s, i + 1, !esc)
    } else if s[i] == 34 && !esc {
        i + 1
    } else {
        spec_scan_string_end(s, i + 1, false)
    }
}

// ---------------------------------------------------------------------------
// Keywords
// ---------------------------------------------------------------------------

/// Whether a lexeme is `self` or `this`, the prefixes stripped at lex time.
pub open spec fn is_self_or_this(lex: Seq<u8>) -> bool {
    lex.len() == 4 && ((lex[0] == 's' as u8 && lex[1] == 'e' as u8 && lex[2] == 'l' as u8 && lex[3]
        == 'f' as u8) || (lex[0] == 't' as u8 && lex[1] == 'h' as u8 && lex[2] == 'i' as u8
        && lex[3] == 's' as u8))
}

/// Maps an identifier lexeme to its keyword kind, or `Identifier`. The
/// keywords are `for`, `if`, `slot`, `in`, `px`, `deg`, `rad` and `bind`.
pub open spec fn spec_keyword_kind(lex: Seq<u8>) -> TokenKind {
    if lex.len() == 2 {
        if lex[0] == 'i' as u8 && lex[1] == 'f' as u8 {
            TokenKind::If
        } else if lex[0] == 'i' as u8 && lex[1] == 'n' as u8 {
            TokenKind::In
        } else if lex[0] == 'p' as u8 && lex[1] == 'x' as u8 {
            TokenKind::Pixels
        } else {
            TokenKind::Identifier
        }
    } else if lex.len() == 3 {
        if lex[0] == 'f' as u8 && lex[1] == 'o' as u8 && lex[2] == 'r' as u8 {
            TokenKind::For
        } else if lex[0] == 'd' as u8 && lex[1] == 'e' as u8 && lex[2] == 'g' as u8 {
            TokenKind::Degrees
        } else if lex[0] == 'r' as u8 && lex[1] == 'a' as u8 && lex[2] == 'd' as u8 {
            TokenKind::Radians
        } else {
            TokenKind::Identifier
        }
    } else if lex.len() == 4 {
        if lex[0] == 's' as u8 && lex[1] == 'l' as u8 && lex[2] == 'o' as u8 && lex[3] == 't' as u8 {
            TokenKind::Slot
        } else if lex[0] == 'b' as u8 && lex[1] == 'i' as u8 && lex[2] == 'n' as u8 && lex[3]
            == 'd' as u8 {
            TokenKind::Bind
        } else {
            TokenKind::Identifier
        }
    } else {
        TokenKind::Identifier
    }
}

// ---------------------------------------------------------------------------
// One token
// ---------------------------------------------------------------------------

/// An identifier-like lexeme scanned from `start`: its start (which moves
/// past a stripped `self.` or `this.` prefix), its end, and its kind.
///
/// The rewrite: when the lexeme is exactly `self` or `this` and is followed
/// by a `.` that is itself followed by a letter, both the lexeme and the dot
/// are dropped and scanning restarts at the letter, so the resulting token
/// carries the span of the inner identifier.
pub open spec fn spec_ident_token(s: Seq<u8>, start: int) -> (int, int, TokenKind)
    decreases s.len() - start,
    when 0 <= start < s.len()
{
    let end = spec_scan_ident_end(s, start + 1);
    if is_self_or_this(s.subrange(start, end)) && end + 1 < s.len() && s[end] == ('.' as u8)
        && is_alpha_byte(s[end + 1]) {
        proof {
            lemma_scan_ident_end_bounds(s, start + 1);
        }
        spec_ident_token(s, end + 1)
    } else {
        (start, end, spec_keyword_kind(s.subrange(start, end)))
    }
}

/// A number lexeme scanned from `start`: its end and its kind. A decimal
/// point is consumed only when it is followed by a digit, so `0..5` stays
/// `Integer`, `Range`, `Integer`.
pub open spec fn spec_number_token(s: Seq<u8>, start: int) -> (int, TokenKind)
    recommends
        0 <= start < s.len(),
{
    let d = spec_scan_digits_end(s, start + 1);
    if d + 1 < s.len() && s[d] == ('.' as u8) && is_digit_byte(s[d + 1]) {
        (spec_scan_digits_end(s, d + 1), TokenKind::Float)
    } else {
        (d, TokenKind::Integer)
    }
}

/// Builds the token for the half-open byte range `[start, end)`.
pub open spec fn tok(start: int, end: int, k: TokenKind) -> Token {
    Token { span: Span { start: start as u32, end: end as u32 }, kind: k }
}

/// A one-byte token at `p`.
pub open spec fn spec_single(p: int, k: TokenKind) -> (Token, int) {
    (tok(p, p + 1, k), p + 1)
}

/// The byte length of the UTF-8 character introduced by `b`, read off its
/// leading byte; a stray continuation byte (or an invalid one) counts as a
/// single byte.
pub open spec fn utf8_len(b: u8) -> int {
    if b < 0x80 {
        1
    } else if b < 0xC0 {
        1
    } else if b < 0xE0 {
        2
    } else if b < 0xF0 {
        3
    } else if b < 0xF8 {
        4
    } else {
        1
    }
}

/// An `Unknown` token at `p`: it covers the whole UTF-8 character starting
/// there, clamped to the end of the buffer.
pub open spec fn spec_unknown(s: Seq<u8>, p: int) -> (Token, int) {
    let end = if p + utf8_len(s[p]) <= s.len() {
        p + utf8_len(s[p])
    } else {
        s.len() as int
    };
    (tok(p, end, TokenKind::Unknown), end)
}

/// A punctuator at `p` that becomes `two` when the next byte is `c`, else
/// `one`. Either way the recorded span covers a single byte; only the resume
/// position differs.
pub open spec fn spec_two_opt(s: Seq<u8>, p: int, c: u8, one: TokenKind, two: TokenKind) -> (
    Token,
    int,
) {
    if p + 1 < s.len() && s[p + 1] == c {
        (tok(p, p + 1, two), p + 2)
    } else {
        (tok(p, p + 1, one), p + 1)
    }
}

/// The token starting at the non-whitespace position `p`, together with the
/// position at which scanning resumes.
pub open spec fn spec_token_at(s: Seq<u8>, p: int) -> (Token, int)
    recommends
        0 <= p < s.len(),
{
    let b = s[p];
    if is_alpha_byte(b) {
        let (st, end, k) = spec_ident_token(s, p);
        (tok(st, end, k), end)
    } else if is_digit_byte(b) {
        let (end, k) = spec_number_token(s, p);
        (tok(p, end, k), end)
    } else if b == ('(' as u8) {
        spec_single(p, TokenKind::OpenParenth)
    } else if b == (')' as u8) {
        spec_single(p, TokenKind::CloseParenth)
    } else if b == ('[' as u8) {
        spec_single(p, TokenKind::OpenSquareBrack)
    } else if b == (']' as u8) {
        spec_single(p, TokenKind::CloseSquareBrack)
    } else if b == ('{' as u8) {
        spec_single(p, TokenKind::OpenCurlBrack)
    } else if b == ('}' as u8) {
        spec_single(p, TokenKind::CloseCurlBrack)
    } else if b == ('*' as u8) {
        spec_single(p, TokenKind::Asterisk)
    } else if b == ('+' as u8) {
        spec_single(p, TokenKind::Plus)
    } else if b == ('-' as u8) {
        spec_single(p, TokenKind::Minus)
    } else if b == ('@' as u8) {
        spec_single(p, TokenKind::AtSymbol)
    } else if b == (',' as u8) {
        spec_single(p, TokenKind::Comma)
    } else if b == ('#' as u8) {
        spec_single(p, TokenKind::Hashtag)
    } else if b == ('^' as u8) {
        spec_single(p, TokenKind::Exp)
    } else if b == (':' as u8) {
        spec_two_opt(s, p, (':' as u8), TokenKind::Colon, TokenKind::PathSep)
    } else if b == ('.' as u8) {
        spec_two_opt(s, p, ('.' as u8), TokenKind::Period, TokenKind::Range)
    } else if b == ('%' as u8) {
        spec_two_opt(s, p, ('%' as u8), TokenKind::Percent, TokenKind::Remainder)
    } else if b == ('<' as u8) {
        spec_two_opt(s, p, ('=' as u8), TokenKind::OpenAngBrack, TokenKind::LessOrEq)
    } else if b == ('>' as u8) {
        spec_two_opt(s, p, ('=' as u8), TokenKind::CloseAngBrack, TokenKind::MoreOrEq)
    } else if b == ('=' as u8) {
        spec_two_opt(s, p, ('=' as u8), TokenKind::Assign, TokenKind::Eq)
    } else if b == ('!' as u8) {
        spec_two_opt(s, p, ('=' as u8), TokenKind::Not, TokenKind::NotEq)
    } else if b == ('|' as u8) {
        spec_two_opt(s, p, ('|' as u8), TokenKind::VertLine, TokenKind::Or)
    } else if b == ('&' as u8) {
        spec_two_opt(s, p, ('&' as u8), TokenKind::Ampersand, TokenKind::And)
    } else if b == ('/' as u8) {
        if p + 1 < s.len() && s[p + 1] == ('/' as u8) {
            (tok(p, spec_scan_comment_end(s, p + 1), TokenKind::Comment),
            spec_scan_comment_end(s, p + 1))
        } else {
            spec_single(p, TokenKind::Slash)
        }
    } else if b == ('"' as u8) {
        let end = spec_scan_string_end(s, p + 1, false);
        (tok(p, end, TokenKind::String), end)
    } else {
        spec_unknown(s, p)
    }
}

// ---------------------------------------------------------------------------
// The token stream
// ---------------------------------------------------------------------------

/// The tokens of `s` from position `i` on: whitespace is skipped before each
/// token, and the stream ends when only whitespace remains.
pub open spec fn spec_tokens_from(s: Seq<u8>, i: int) -> Seq<Token>
    decreases s.len() - i,
    when 0 <= i <= s.len()
{
    let p = spec_skip_ws(s, i);
    proof {
        lemma_skip_ws_bounds(s, i);
    }
    if p >= s.len() {
        Seq::empty()
    } else {
        let (t, next) = spec_token_at(s, p);
        proof {
            lemma_token_at_bounds(s, p);
        }
        seq![t] + spec_tokens_from(s, next)
    }
}

/// The full token sequence of a source buffer. This is the lexer's whole
/// behaviour: the executable scanner is proved to produce exactly this.
pub open spec fn spec_tokens(s: Seq<u8>) -> Seq<Token> {
    spec_tokens_from(s, 0)
}

// ---------------------------------------------------------------------------
// Bounds and well-formedness lemmas
// ---------------------------------------------------------------------------

pub proof fn lemma_skip_ws_bounds(s: Seq<u8>, i: int)
    requires
        0 <= i <= s.len(),
    ensures
        i <= spec_skip_ws(s, i) <= s.len(),
    decreases s.len() - i,
{
    if ws_len(s, i) > 0 {
        lemma_skip_ws_bounds(s, i + ws_len(s, i));
    }
}

pub proof fn lemma_scan_ident_end_bounds(s: Seq<u8>, i: int)
    requires
        0 <= i <= s.len(),
    ensures
        i <= spec_scan_ident_end(s, i) <= s.len(),
        forall|j: int| i <= j < spec_scan_ident_end(s, i) ==> is_ident_cont_byte(#[trigger] s[j]),
    decreases s.len() - i,
{
    if i < s.len() && is_ident_cont_byte(s[i]) {
        lemma_scan_ident_end_bounds(s, i + 1);
    }
}

pub proof fn lemma_scan_digits_end_bounds(s: Seq<u8>, i: int)
    requires
        0 <= i <= s.len(),
    ensures
        i <= spec_scan_digits_end(s, i) <= s.len(),
    decreases s.len() - i,
{
    if i < s.len() && is_digit_byte(s[i]) {
        lemma_scan_digits_end_bounds(s, i + 1);
    }
}

pub proof fn lemma_scan_comment_end_bounds(s: Seq<u8>, i: int)
    requires
        0 <= i <= s.len(),
    ensures
        i <= spec_scan_comment_end(s, i) <= s.len(),
    decreases s.len() - i,
{
    if i < s.len() && s[i] != 10 {
        lemma_scan_comment_end_bounds(s, i + 1);
    }
}

pub proof fn lemma_scan_string_end_bounds(s: Seq<u8>, i: int, esc: bool)
    requires
        0 <= i <= s.len(),
    ensures
        i <= spec_scan_string_end(s, i, esc) <= s.len(),
    decreases s.len() - i,
{
    if i < s.len() {
        if s[i] == 92 {
            lemma_scan_string_end_bounds(s, i + 1, !esc);
        } else if !(s[i] == 34 && !esc) {
            lemma_scan_string_end_bounds(s, i + 1, false);
        }
    }
}

/// The identifier scanner moves forward, stays in bounds, and produces an
/// identifier-shaped lexeme.
pub proof fn lemma_ident_token_props(s: Seq<u8>, start: int)
    requires
        0 <= start < s.len(),
        is_alpha_byte(s[start]),
    ensures
        ({
            let (st, end, k) = spec_ident_token(s, start);
            &&& start <= st < end <= s.len()
            &&& is_ident_bytes(s.subrange(st, end))
            &&& k != TokenKind::EOF
        }),
    decreases s.len() - start,
{
    let end0 = spec_scan_ident_end(s, start + 1);
    lemma_scan_ident_end_bounds(s, start + 1);
    if is_self_or_this(s.subrange(start, end0)) && end0 + 1 < s.len() && s[end0] == ('.' as u8)
        && is_alpha_byte(s[end0 + 1]) {
        lemma_ident_token_props(s, end0 + 1);
    } else {
        let lex = s.subrange(start, end0);
        assert(forall|i: int| 1 <= i < lex.len() ==> is_ident_cont_byte(#[trigger] lex[i]));
    }
}

/// After any token, scanning resumes strictly forward of the dispatch
/// position and in bounds.
pub proof fn lemma_token_at_bounds(s: Seq<u8>, p: int)
    requires
        0 <= p < s.len(),
    ensures
        p < spec_token_at(s, p).1 <= s.len(),
{
    let b = s[p];
    if is_alpha_byte(b) {
        lemma_ident_token_props(s, p);
    } else if is_digit_byte(b) {
        lemma_scan_digits_end_bounds(s, p + 1);
        let d = spec_scan_digits_end(s, p + 1);
        if d + 1 < s.len() && s[d] == ('.' as u8) && is_digit_byte(s[d + 1]) {
            lemma_scan_digits_end_bounds(s, d + 1);
        }
    } else if b == ('/' as u8) && p + 1 < s.len() && s[p + 1] == ('/' as u8) {
        lemma_scan_comment_end_bounds(s, p + 1);
    } else if b == ('"' as u8) {
        lemma_scan_string_end_bounds(s, p + 1, false);
    }
}

/// A token is well formed for the buffer it was lexed from: its span is a
/// valid byte range, an `Identifier` token's lexeme has identifier shape,
/// and it is never the synthesised `EOF` kind — only the parser makes that
/// one up at end of input.
pub open spec fn token_wf(src: Seq<u8>, t: Token) -> bool {
    &&& span_wf(t.span, src)
    &&& t.kind == TokenKind::Identifier ==> is_ident_bytes(
        src.subrange(t.span.start as int, t.span.end as int),
    )
    &&& t.kind != TokenKind::EOF
}

/// In a buffer whose length fits a span, every lexed token is well formed
/// and covers at least one byte, ending no later than the resume position.
pub proof fn lemma_token_at_wf(s: Seq<u8>, p: int)
    requires
        0 <= p < s.len(),
        s.len() <= u32::MAX,
    ensures
        ({
            let (t, next) = spec_token_at(s, p);
            &&& token_wf(s, t)
            &&& p <= t.span.start as int
            &&& (t.span.start as int) < t.span.end as int
            &&& t.span.end as int <= next
        }),
{
    lemma_token_at_bounds(s, p);
    let b = s[p];
    if is_alpha_byte(b) {
        lemma_ident_token_props(s, p);
    } else if is_digit_byte(b) {
        lemma_scan_digits_end_bounds(s, p + 1);
        let d = spec_scan_digits_end(s, p + 1);
        if d + 1 < s.len() && s[d] == ('.' as u8) && is_digit_byte(s[d + 1]) {
            lemma_scan_digits_end_bounds(s, d + 1);
        }
    } else if b == ('/' as u8) && p + 1 < s.len() && s[p + 1] == ('/' as u8) {
        lemma_scan_comment_end_bounds(s, p + 1);
    } else if b == ('"' as u8) {
        lemma_scan_string_end_bounds(s, p + 1, false);
    }
}

/// A buffer holding nothing but whitespace lexes to no tokens at all; in
/// particular the empty buffer does.
pub proof fn lemma_ws_only_source_has_no_tokens(s: Seq<u8>)
    requires
        forall|i: int| 0 <= i < s.len() ==> is_ws_byte(#[trigger] s[i]),
    ensures
        spec_tokens(s) == Seq::<Token>::empty(),
{
    lemma_skip_ws_of_ws_only(s, 0);
}

proof fn lemma_skip_ws_of_ws_only(s: Seq<u8>, i: int)
    requires
        0 <= i <= s.len(),
        forall|j: int| 0 <= j < s.len() ==> is_ws_byte(#[trigger] s[j]),
    ensures
        spec_skip_ws(s, i) == s.len(),
    decreases s.len() - i,
{
    if i < s.len() {
        assert(ws_len(s, i) == 1);
        lemma_skip_ws_of_ws_only(s, i + 1);
    }
}

/// Every token in the stream of a buffer whose length fits a span is well
/// formed.
pub proof fn lemma_tokens_from_wf(s: Seq<u8>, i: int)
    requires
        0 <= i <= s.len(),
        s.len() <= u32::MAX,
    ensures
        forall|j: int|
            0 <= j < spec_tokens_from(s, i).len() ==> token_wf(s, #[trigger] spec_tokens_from(s, i)[j]),
    decreases s.len() - i,
{
    let p = spec_skip_ws(s, i);
    lemma_skip_ws_bounds(s, i);
    if p < s.len() {
        let (t, next) = spec_token_at(s, p);
        lemma_token_at_wf(s, p);
        lemma_token_at_bounds(s, p);
        lemma_tokens_from_wf(s, next);
        let whole = spec_tokens_from(s, i);
        let rest = spec_tokens_from(s, next);
        assert(whole =~= seq![t] + rest);
        assert forall|j: int| 0 <= j < whole.len() implies token_wf(s, whole[j]) by {
            if j > 0 {
                assert(whole[j] == rest[j - 1]);
            }
        }
    }
}

// ---------------------------------------------------------------------------
// Executable byte classes
// ---------------------------------------------------------------------------

fn ws_byte(b: u8) -> (r: bool)
    ensures
        r == is_ws_byte(b),
{
    b == 32 || b == 9 || b == 10 || b == 11 || b == 12 || b == 13
}

/// The byte length of the whitespace character starting at `i` of `src`,
/// or `0` when none does.
fn ws_len_at(src: &[u8], i: usize) -> (l: usize)
    requires
        i <= src@.len(),
    ensures
        l as int == ws_len(src@, i as int),
{
    if i >= src.len() {
        return 0;
    }
    let b = src[i];
    if ws_byte(b) {
        1
    } else if b == 0xC2 && src.len() - i > 1 && (src[i + 1] == 0x85 || src[i + 1] == 0xA0) {
        2
    } else if b == 0xE1 && src.len() - i > 2 && src[i + 1] == 0x9A && src[i + 2] == 0x80 {
        3
    } else if b == 0xE2 && src.len() - i > 2 && src[i + 1] == 0x80 && ((0x80 <= src[i + 2]
        && src[i + 2] <= 0x8A) || src[i + 2] == 0xA8 || src[i + 2] == 0xA9 || src[i + 2]
        == 0xAF) {
        3
    } else if b == 0xE2 && src.len() - i > 2 && src[i + 1] == 0x81 && src[i + 2] == 0x9F {
        3
    } else if b == 0xE3 && src.len() - i > 2 && src[i + 1] == 0x80 && src[i + 2] == 0x80 {
        3
    } else {
        0
    }
}

fn alpha_byte(b: u8) -> (r: bool)
    ensures
        r == is_alpha_byte(b),
{
    (('A' as u8) <= b && b <= ('Z' as u8)) || (('a' as u8) <= b && b <= ('z' as u8))
}

fn digit_byte(b: u8) -> (r: bool)
    ensures
        r == is_digit_byte(b),
{
    ('0' as u8) <= b && b <= ('9' as u8)
}

fn ident_cont_byte(b: u8) -> (r: bool)
    ensures
        r == is_ident_cont_byte(b),
{
    alpha_byte(b) || digit_byte(b) || b == ('_' as u8)
}

/// Whether `src[start..end]` is exactly `self` or `this`.
fn slice_is_self_or_this(src: &[u8], start: usize, end: usize) -> (r: bool)
    requires
        start <= end <= src@.len(),
    ensures
        r == is_self_or_this(src@.subrange(start as int, end as int)),
{
    let ghost lex = src@.subrange(start as int, end as int);
    if end - start != 4 {
        assert(lex.len() != 4);
        return false;
    }
    let b0 = src[start];
    let b1 = src[start + 1];
    let b2 = src[start + 2];
    let b3 = src[start + 3];
    assert(lex[0] == b0 && lex[1] == b1 && lex[2] == b2 && lex[3] == b3);
    if b0 == ('s' as u8) && b1 == ('e' as u8) && b2 == ('l' as u8) && b3 == ('f' as u8) {
        true
    } else if b0 == ('t' as u8) && b1 == ('h' as u8) && b2 == ('i' as u8) && b3 == ('s' as u8) {
        true
    } else {
        false
    }
}

/// The keyword kind of the lexeme `src[start..end]`, or `Identifier`.
fn keyword_or_ident(src: &[u8], start: usize, end: usize) -> (k: TokenKind)
    requires
        start <= end <= src@.len(),
    ensures
        k == spec_keyword_kind(src@.subrange(start as int, end as int)),
{
    let ghost lex = src@.subrange(start as int, end as int);
    let n = end - start;
    if n == 2 {
        let b0 = src[start];
        let b1 = src[start + 1];
        assert(lex[0] == b0 && lex[1] == b1);
        if b0 == ('i' as u8) && b1 == ('f' as u8) {
            TokenKind::If
        } else if b0 == ('i' as u8) && b1 == ('n' as u8) {
            TokenKind::In
        } else if b0 == ('p' as u8) && b1 == ('x' as u8) {
            TokenKind::Pixels
        } else {
            TokenKind::Identifier
        }
    } else if n == 3 {
        let b0 = src[start];
        let b1 = src[start + 1];
        let b2 = src[start + 2];
        assert(lex[0] == b0 && lex[1] == b1 && lex[2] == b2);
        if b0 == ('f' as u8) && b1 == ('o' as u8) && b2 == ('r' as u8) {
            TokenKind::For
        } else if b0 == ('d' as u8) && b1 == ('e' as u8) && b2 == ('g' as u8) {
            TokenKind::Degrees
        } else if b0 == ('r' as u8) && b1 == ('a' as u8) && b2 == ('d' as u8) {
            TokenKind::Radians
        } else {
            TokenKind::Identifier
        }
    } else if n == 4 {
        let b0 = src[start];
        let b1 = src[start + 1];
        let b2 = src[start + 2];
        let b3 = src[start + 3];
        assert(lex[0] == b0 && lex[1] == b1 && lex[2] == b2 && lex[3] == b3);
        if b0 == ('s' as u8) && b1 == ('l' as u8) && b2 == ('o' as u8) && b3 == ('t' as u8) {
            TokenKind::Slot
        } else if b0 == ('b' as u8) && b1 == ('i' as u8) && b2 == ('n' as u8) && b3 == ('d' as u8) {
            TokenKind::Bind
        } else {
            TokenKind::Identifier
        }
    } else {
        TokenKind::Identifier
    }
}

// ---------------------------------------------------------------------------
// The executable scanner
// ---------------------------------------------------------------------------

/// A cursor over the source buffer that hands out one token per call to
/// [`TokenIterator::next`], exactly as `spec_tokens_from` describes.
pub struct TokenIterator<'src> {
    src: &'src [u8],
    pos: usize,
}

impl<'src> TokenIterator<'src> {
    /// The source buffer being scanned.
    pub closed spec fn source(&self) -> Seq<u8> {
        self.src@
    }

    /// The byte position scanning has reached.
    pub closed spec fn at(&self) -> int {
        self.pos as int
    }

    pub open spec fn wf(&self) -> bool {
        0 <= self.at() <= self.source().len() && self.source().len() <= u32::MAX
    }

    /// A scanner at the start of `source`.
    pub fn new(source: &'src [u8]) -> (r: TokenIterator<'src>)
        requires
            source@.len() <= u32::MAX,
        ensures
            r.wf(),
            r.source() == source@,
            r.at() == 0,
    {
        TokenIterator { src: source, pos: 0 }
    }

    /// Skips whitespace and scans the next token, or returns `None` when
    /// only whitespace remains. The result is exactly what the
    /// specification lexer says for the current position.
    pub fn next(&mut self) -> (r: Option<Token>)
        requires
            old(self).wf(),
        ensures
            final(self).wf(),
            final(self).source() == old(self).source(),
            ({
                let s = old(self).source();
                let p = spec_skip_ws(s, old(self).at());
                if p >= s.len() {
                    r is None && final(self).at() == s.len()
                } else {
                    r == Some(spec_token_at(s, p).0) && final(self).at() == spec_token_at(s, p).1
                }
            }),
            r is Some ==> final(self).at() > old(self).at(),
            r is None ==> final(self).at() == old(self).source().len(),
    {
        let ghost s = self.source();
        let ghost i0 = self.at();
        loop
            invariant_except_break
                self.wf(),
                self.source() == s,
                0 <= i0 <= self.at(),
                spec_skip_ws(s, i0) == spec_skip_ws(s, self.at()),
            ensures
                self.wf(),
                self.source() == s,
                0 <= i0 <= self.at(),
                self.at() == spec_skip_ws(s, i0),
            decreases s.len() - self.at(),
        {
            let l = ws_len_at(self.src, self.pos);
            if l == 0 {
                break;
            }
            self.pos = self.pos + l;
        }
        proof {
            lemma_skip_ws_bounds(s, i0);
        }
        if self.pos >= self.src.len() {
            return None;
        }
        let b = self.src[self.pos];
        let t = if alpha_byte(b) {
            self.ident_like()
        } else if digit_byte(b) {
            self.number()
        } else if b == ('(' as u8) {
            self.single(TokenKind::OpenParenth)
        } else if b == (')' as u8) {
            self.single(TokenKind::CloseParenth)
        } else if b == ('[' as u8) {
            self.single(TokenKind::OpenSquareBrack)
        } else if b == (']' as u8) {
            self.single(TokenKind::CloseSquareBrack)
        } else if b == ('{' as u8) {
            self.single(TokenKind::OpenCurlBrack)
        } else if b == ('}' as u8) {
            self.single(TokenKind::CloseCurlBrack)
        } else if b == ('*' as u8) {
            self.single(TokenKind::Asterisk)
        } else if b == ('+' as u8) {
            self.single(TokenKind::Plus)
        } else if b == ('-' as u8) {
            self.single(TokenKind::Minus)
        } else if b == ('@' as u8) {
            self.single(TokenKind::AtSymbol)
        } else if b == (',' as u8) {
            self.single(TokenKind::Comma)
        } else if b == ('#' as u8) {
            self.single(TokenKind::Hashtag)
        } else if b == ('^' as u8) {
            self.single(TokenKind::Exp)
        } else if b == (':' as u8) {
            self.one_or_two_if_with(TokenKind::Colon, ':' as u8, TokenKind::PathSep)
        } else if b == ('.' as u8) {
            self.one_or_two_if_with(TokenKind::Period, '.' as u8, TokenKind::Range)
        } else if b == ('%' as u8) {
            self.one_or_two_if_with(TokenKind::Percent, '%' as u8, TokenKind::Remainder)
        } else if b == ('<' as u8) {
            self.one_or_two_if_with(TokenKind::OpenAngBrack, '=' as u8, TokenKind::LessOrEq)
        } else if b == ('>' as u8) {
            self.one_or_two_if_with(TokenKind::CloseAngBrack, '=' as u8, TokenKind::MoreOrEq)
        } else if b == ('=' as u8) {
            self.one_or_two_if_with(TokenKind::Assign, '=' as u8, TokenKind::Eq)
        } else if b == ('!' as u8) {
            self.one_or_two_if_with(TokenKind::Not, '=' as u8, TokenKind::NotEq)
        } else if b == ('|' as u8) {
            self.one_or_two_if_with(TokenKind::VertLine, '|' as u8, TokenKind::Or)
        } else if b == ('&' as u8) {
            self.one_or_two_if_with(TokenKind::Ampersand, '&' as u8, TokenKind::And)
        } else if b == ('/' as u8) {
            self.comment_or_slash()
        } else if b == ('"' as u8) {
            self.string()
        } else {
            self.unknown()
        };
        proof {
            lemma_token_at_bounds(s, spec_skip_ws(s, i0));
        }
        Some(t)
    }

    /// Emits an `Unknown` token covering the whole UTF-8 character at the
    /// current position, so that a multi-byte character that starts no
    /// known token stays one token.
    fn unknown(&mut self) -> (t: Token)
        requires
            old(self).wf(),
            old(self).at() < old(self).source().len(),
        ensures
            final(self).wf(),
            final(self).source() == old(self).source(),
            t == spec_unknown(old(self).source(), old(self).at()).0,
            final(self).at() == spec_unknown(old(self).source(), old(self).at()).1,
    {
        let start = self.pos;
        let b = self.src[self.pos];
        let l: usize = if b < 0x80 {
            1
        } else if b < 0xC0 {
            1
        } else if b < 0xE0 {
            2
        } else if b < 0xF0 {
            3
        } else if b < 0xF8 {
            4
        } else {
            1
        };
        let end = if self.src.len() - self.pos > l {
            self.pos + l
        } else {
            self.src.len()
        };
        self.pos = end;
        Token { span: Span { start: start as u32, end: end as u32 }, kind: TokenKind::Unknown }
    }

    /// Emits a one-byte token at the current position.
    fn single(&mut self, kind: TokenKind) -> (t: Token)
        requires
            old(self).wf(),
            old(self).at() < old(self).source().len(),
        ensures
            final(self).wf(),
            final(self).source() == old(self).source(),
            t == spec_single(old(self).at(), kind).0,
            final(self).at() == spec_single(old(self).at(), kind).1,
    {
        let start = self.pos;
        self.pos = self.pos + 1;
        Token { span: Span { start: start as u32, end: (start + 1) as u32 }, kind }
    }

    /// Emits `if_two` when the byte after the current one is `if_with`,
    /// else `if_one`; the span covers one byte either way.
    fn one_or_two_if_with(&mut self, if_one: TokenKind, if_with: u8, if_two: TokenKind) -> (t:
        Token)
        requires
            old(self).wf(),
            old(self).at() < old(self).source().len(),
        ensures
            final(self).wf(),
            final(self).source() == old(self).source(),
            t == spec_two_opt(old(self).source(), old(self).at(), if_with, if_one, if_two).0,
            final(self).at() == spec_two_opt(
                old(self).source(),
                old(self).at(),
                if_with,
                if_one,
                if_two,
            ).1,
    {
        let start = self.pos;
        self.pos = self.pos + 1;
        let kind = if self.pos < self.src.len() && self.src[self.pos] == if_with {
            self.pos = self.pos + 1;
            if_two
        } else {
            if_one
        };
        Token { span: Span { start: start as u32, end: (start + 1) as u32 }, kind }
    }

    /// Scans an identifier-like lexeme, stripping `self.` and `this.`
    /// prefixes and mapping keywords to their kinds.
    fn ident_like(&mut self) -> (t: Token)
        requires
            old(self).wf(),
            old(self).at() < old(self).source().len(),
            is_alpha_byte(old(self).source()[old(self).at()]),
        ensures
            final(self).wf(),
            final(self).source() == old(self).source(),
            ({
                let (st, end, k) = spec_ident_token(old(self).source(), old(self).at());
                t == tok(st, end, k) && final(self).at() == end
            }),
        decreases old(self).source().len() - old(self).at(),
    {
        let ghost s = self.source();
        let ghost start0 = self.at();
        let start = self.pos;
        self.pos = self.pos + 1;
        while self.pos < self.src.len() && ident_cont_byte(self.src[self.pos])
            invariant
                self.wf(),
                self.source() == s,
                start0 + 1 <= self.at(),
                spec_scan_ident_end(s, start0 + 1) == spec_scan_ident_end(s, self.at()),
            decreases s.len() - self.at(),
        {
            self.pos = self.pos + 1;
        }
        let end = self.pos;
        assert(end == spec_scan_ident_end(s, start0 + 1));
        if slice_is_self_or_this(self.src, start, end) && end < self.src.len() && end + 1
            < self.src.len() && self.src[end] == ('.' as u8) && alpha_byte(self.src[end + 1]) {
            self.pos = self.pos + 1;
            let t = self.ident_like();
            proof {
                lemma_scan_ident_end_bounds(s, start0 + 1);
            }
            t
        } else {
            let k = keyword_or_ident(self.src, start, end);
            Token { span: Span { start: start as u32, end: end as u32 }, kind: k }
        }
    }

    /// Scans an integer or float lexeme.
    fn number(&mut self) -> (t: Token)
        requires
            old(self).wf(),
            old(self).at() < old(self).source().len(),
            is_digit_byte(old(self).source()[old(self).at()]),
        ensures
            final(self).wf(),
            final(self).source() == old(self).source(),
            ({
                let (end, k) = spec_number_token(old(self).source(), old(self).at());
                t == tok(old(self).at(), end, k) && final(self).at() == end
            }),
    {
        let ghost s = self.source();
        let ghost start0 = self.at();
        let start = self.pos;
        self.pos = self.pos + 1;
        while self.pos < self.src.len() && digit_byte(self.src[self.pos])
            invariant
                self.wf(),
                self.source() == s,
                start0 + 1 <= self.at(),
                spec_scan_digits_end(s, start0 + 1) == spec_scan_digits_end(s, self.at()),
            decreases s.len() - self.at(),
        {
            self.pos = self.pos + 1;
        }
        let d = self.pos;
        assert(d == spec_scan_digits_end(s, start0 + 1));
        let mut kind = TokenKind::Integer;
        if d < self.src.len() && d + 1 < self.src.len() && self.src[d] == ('.' as u8) && digit_byte(
            self.src[d + 1],
        ) {
            // the decimal point is only consumed because a digit follows
            self.pos = self.pos + 1;
            while self.pos < self.src.len() && digit_byte(self.src[self.pos])
                invariant
                    self.wf(),
                    self.source() == s,
                    d + 1 <= self.at(),
                    spec_scan_digits_end(s, d + 1) == spec_scan_digits_end(s, self.at()),
                decreases s.len() - self.at(),
            {
                self.pos = self.pos + 1;
            }
            kind = TokenKind::Float;
            assert(self.at() == spec_scan_digits_end(s, d + 1));
        }
        Token { span: Span { start: start as u32, end: self.pos as u32 }, kind }
    }

    /// Scans a `//` comment running to the end of the line, or a lone
    /// slash.
    fn comment_or_slash(&mut self) -> (t: Token)
        requires
            old(self).wf(),
            old(self).at() < old(self).source().len(),
            old(self).source()[old(self).at()] == '/' as u8,
        ensures
            final(self).wf(),
            final(self).source() == old(self).source(),
            t == spec_token_at(old(self).source(), old(self).at()).0,
            final(self).at() == spec_token_at(old(self).source(), old(self).at()).1,
    {
        let ghost s = self.source();
        let ghost start0 = self.at();
        let start = self.pos;
        self.pos = self.pos + 1;
        if self.pos < self.src.len() && self.src[self.pos] == ('/' as u8) {
            while self.pos < self.src.len() && self.src[self.pos] != 10
                invariant
                    self.wf(),
                    self.source() == s,
                    start0 + 1 <= self.at(),
                    spec_scan_comment_end(s, start0 + 1) == spec_scan_comment_end(s, self.at()),
                decreases s.len() - self.at(),
            {
                self.pos = self.pos + 1;
            }
            Token {
                span: Span { start: start as u32, end: self.pos as u32 },
                kind: TokenKind::Comment,
            }
        } else {
            Token {
                span: Span { start: start as u32, end: (start + 1) as u32 },
                kind: TokenKind::Slash,
            }
        }
    }

    /// Scans a string lexeme with backslash escapes; unterminated strings
    /// extend to the end of the buffer.
    fn string(&mut self) -> (t: Token)
        requires
            old(self).wf(),
            old(self).at() < old(self).source().len(),
            old(self).source()[old(self).at()] == '"' as u8,
        ensures
            final(self).wf(),
            final(self).source() == old(self).source(),
            t == spec_token_at(old(self).source(), old(self).at()).0,
            final(self).at() == spec_token_at(old(self).source(), old(self).at()).1,
    {
        let ghost s = self.source();
        let ghost start0 = self.at();
        let start = self.pos;
        self.pos = self.pos + 1;
        let mut esc = false;
        loop
            invariant_except_break
                self.wf(),
                self.source() == s,
                start0 + 1 <= self.at(),
                spec_scan_string_end(s, start0 + 1, false) == spec_scan_string_end(
                    s,
                    self.at(),
                    esc,
                ),
            ensures
                self.wf(),
                self.source() == s,
                start0 + 1 <= self.at(),
                self.at() == spec_scan_string_end(s, start0 + 1, false),
            decreases s.len() - self.at(),
        {
            if self.pos >= self.src.len() {
                break;
            }
            let b = self.src[self.pos];
            self.pos = self.pos + 1;
            if b == 92 {
                esc = !esc;
            } else if b == 34 && !esc {
                break;
            } else {
                esc = false;
            }
        }
        Token { span: Span { start: start as u32, end: self.pos as u32 }, kind: TokenKind::String }
    }
}

/// Lexes a whole source buffer into its token sequence.
pub fn lex(source: &[u8]) -> (toks: Vec<Token>)
    requires
        source@.len() <= u32::MAX,
    ensures
        toks@ == spec_tokens(source@),
{
    let mut scanner = TokenIterator::new(source);
    let mut toks: Vec<Token> = Vec::new();
    loop
        invariant_except_break
            scanner.wf(),
            scanner.source() == source@,
            toks@ + spec_tokens_from(source@, scanner.at()) == spec_tokens(source@),
        ensures
            toks@ == spec_tokens(source@),
        decreases source@.len() - scanner.at(),
    {
        let ghost before = scanner.at();
        match scanner.next() {
            Some(t) => {
                proof {
                    let s = source@;
                    let p = spec_skip_ws(s, before);
                    lemma_skip_ws_bounds(s, before);
                    lemma_token_at_bounds(s, p);
                    assert(spec_tokens_from(s, before) =~= seq![t] + spec_tokens_from(
                        s,
                        scanner.at(),
                    ));
                }
                toks.push(t);
            },
            None => {
                proof {
                    assert(spec_tokens_from(source@, before) =~= Seq::<Token>::empty());
                    assert(toks@ + spec_tokens_from(source@, before) =~= toks@);
                }
                break;
            },
        }
    }
    toks
}


} // verus!
