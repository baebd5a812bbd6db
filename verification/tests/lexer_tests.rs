use pax_parser::Span;
use pax_parser::Token;
use pax_parser::TokenKind;
use pax_parser::lexer::lex;

fn kinds(src: &str) -> Vec<TokenKind> {
    lex(src.as_bytes()).iter().map(|t| t.kind).collect()
}

fn slice<'a>(src: &'a str, t: &Token) -> &'a str {
    &src[t.span.start as usize..t.span.end as usize]
}

#[test]
fn test_empty_source_has_no_tokens() {
    assert_eq!(lex(b""), vec![]);
}

#[test]
fn test_whitespace_only_source_has_no_tokens() {
    assert_eq!(lex(b" \t\r\n\x0b\x0c  "), vec![]);
}

#[test]
fn test_unicode_whitespace_is_skipped() {
    // no-break space, em space, ideographic space, next line, line
    // separator: all whitespace, none of it a token
    let src = "a\u{00a0}b\u{2003}c\u{3000}d\u{0085}e\u{2028}f";
    let toks = lex(src.as_bytes());
    assert_eq!(toks.len(), 6);
    for t in &toks {
        assert_eq!(t.kind, TokenKind::Identifier);
    }
}

#[test]
fn test_range_is_not_swallowed_by_number() {
    // the number scanner must not consume the `.` when another `.` follows
    let toks = lex(b"0..5");
    assert_eq!(
        toks.iter().map(|t| t.kind).collect::<Vec<_>>(),
        vec![TokenKind::Integer, TokenKind::Range, TokenKind::Integer]
    );
    assert_eq!(toks[0].span, Span { start: 0, end: 1 });
    assert_eq!(toks[2].span, Span { start: 3, end: 4 });
}

#[test]
fn test_float_is_one_token() {
    let toks = lex(b"1.5 2");
    assert_eq!(toks.len(), 2);
    assert_eq!(toks[0].kind, TokenKind::Float);
    assert_eq!(toks[0].span, Span { start: 0, end: 3 });
    assert_eq!(toks[1].kind, TokenKind::Integer);
}

#[test]
fn test_self_prefix_is_stripped() {
    let src = "self.foo.bar";
    let toks = lex(src.as_bytes());
    assert_eq!(
        toks.iter().map(|t| t.kind).collect::<Vec<_>>(),
        vec![TokenKind::Identifier, TokenKind::Period, TokenKind::Identifier]
    );
    assert_eq!(slice(src, &toks[0]), "foo");
    assert_eq!(slice(src, &toks[2]), "bar");
}

#[test]
fn test_this_prefix_is_stripped() {
    let src = "this.x";
    let toks = lex(src.as_bytes());
    assert_eq!(toks.len(), 1);
    assert_eq!(toks[0].kind, TokenKind::Identifier);
    assert_eq!(slice(src, &toks[0]), "x");
}

#[test]
fn test_self_without_dot_is_plain_identifier() {
    let src = "self";
    let toks = lex(src.as_bytes());
    assert_eq!(toks.len(), 1);
    assert_eq!(toks[0].kind, TokenKind::Identifier);
    assert_eq!(slice(src, &toks[0]), "self");
}

#[test]
fn test_keywords() {
    assert_eq!(
        kinds("for if in slot bind px deg rad"),
        vec![
            TokenKind::For,
            TokenKind::If,
            TokenKind::In,
            TokenKind::Slot,
            TokenKind::Bind,
            TokenKind::Pixels,
            TokenKind::Degrees,
            TokenKind::Radians,
        ]
    );
}

#[test]
fn test_identifier_shapes() {
    let src = "a_1b Zq forx";
    let toks = lex(src.as_bytes());
    assert_eq!(toks.len(), 3);
    for t in &toks {
        assert_eq!(t.kind, TokenKind::Identifier);
    }
    assert_eq!(slice(src, &toks[0]), "a_1b");
    assert_eq!(slice(src, &toks[2]), "forx");
}

#[test]
fn test_single_char_punctuation() {
    assert_eq!(
        kinds("( ) [ ] { } * + - @ , # ^ / < > = ! | & : . %"),
        vec![
            TokenKind::OpenParenth,
            TokenKind::CloseParenth,
            TokenKind::OpenSquareBrack,
            TokenKind::CloseSquareBrack,
            TokenKind::OpenCurlBrack,
            TokenKind::CloseCurlBrack,
            TokenKind::Asterisk,
            TokenKind::Plus,
            TokenKind::Minus,
            TokenKind::AtSymbol,
            TokenKind::Comma,
            TokenKind::Hashtag,
            TokenKind::Exp,
            TokenKind::Slash,
            TokenKind::OpenAngBrack,
            TokenKind::CloseAngBrack,
            TokenKind::Assign,
            TokenKind::Not,
            TokenKind::VertLine,
            TokenKind::Ampersand,
            TokenKind::Colon,
            TokenKind::Period,
            TokenKind::Percent,
        ]
    );
}

#[test]
fn test_two_char_punctuation() {
    assert_eq!(
        kinds(":: .. %% <= >= == != || &&"),
        vec![
            TokenKind::PathSep,
            TokenKind::Range,
            TokenKind::Remainder,
            TokenKind::LessOrEq,
            TokenKind::MoreOrEq,
            TokenKind::Eq,
            TokenKind::NotEq,
            TokenKind::Or,
            TokenKind::And,
        ]
    );
}

#[test]
fn test_comment_runs_to_end_of_line() {
    let src = "// hi\n/";
    let toks = lex(src.as_bytes());
    assert_eq!(toks.len(), 2);
    assert_eq!(toks[0].kind, TokenKind::Comment);
    assert_eq!(slice(src, &toks[0]), "// hi");
    assert_eq!(toks[1].kind, TokenKind::Slash);
}

#[test]
fn test_string_with_escaped_quote() {
    let src = "\"a\\\"b\"";
    let toks = lex(src.as_bytes());
    assert_eq!(toks.len(), 1);
    assert_eq!(toks[0].kind, TokenKind::String);
    assert_eq!(toks[0].span, Span { start: 0, end: 6 });
}

#[test]
fn test_unterminated_string_extends_to_end() {
    let toks = lex(b"\"abc");
    assert_eq!(toks.len(), 1);
    assert_eq!(toks[0].kind, TokenKind::String);
    assert_eq!(toks[0].span, Span { start: 0, end: 4 });
}

#[test]
fn test_unknown_character_is_one_token() {
    // a multi-byte UTF-8 character that starts no token is one Unknown
    // token spanning the whole character
    let toks = lex("é?".as_bytes());
    assert_eq!(toks.len(), 2);
    assert_eq!(toks[0].kind, TokenKind::Unknown);
    assert_eq!(toks[0].span, Span { start: 0, end: 2 });
    assert_eq!(toks[1].kind, TokenKind::Unknown);
    assert_eq!(toks[1].span, Span { start: 2, end: 3 });
}

#[test]
fn test_unknown_three_byte_character() {
    let toks = lex("\u{20ac}".as_bytes());
    assert_eq!(toks.len(), 1);
    assert_eq!(toks[0].kind, TokenKind::Unknown);
    assert_eq!(toks[0].span, Span { start: 0, end: 3 });
}

#[test]
fn test_stray_continuation_bytes_are_single_unknowns() {
    let toks = lex(b"\x80\x80");
    assert_eq!(toks.len(), 2);
    assert_eq!(toks[0].span, Span { start: 0, end: 1 });
    assert_eq!(toks[1].span, Span { start: 1, end: 2 });
}

#[test]
fn test_truncated_character_clamps_to_end() {
    // a three-byte lead with only one continuation byte left
    let toks = lex(b"\xe2\x82");
    assert_eq!(toks.len(), 1);
    assert_eq!(toks[0].kind, TokenKind::Unknown);
    assert_eq!(toks[0].span, Span { start: 0, end: 2 });
}

#[test]
fn test_span_as_range() {
    let s = Span { start: 2, end: 5 };
    assert_eq!(s.as_range(), 2..5);
}

#[test]
fn test_token_default_is_eof() {
    let t = Token::default();
    assert_eq!(t.kind, TokenKind::EOF);
    assert_eq!(t.span, Span { start: 0, end: 0 });
}
