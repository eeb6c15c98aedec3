use queen_shell::parser::parse;
use queen_shell::{ProximateShellError, Span, Token};

#[test]
fn bare_single_token() {
    let r = parse("ls").unwrap();
    assert_eq!(r.item.len(), 1);
    assert!(matches!(r.item[0].item, Token::Bare));
    assert_eq!(r.item[0].span, Span { start: 0, end: 2 });
    assert_eq!(r.span, Span { start: 0, end: 2 });
}

#[test]
fn quoted_string_inner_span() {
    let source = "'hello world'";
    let r = parse(source).unwrap();
    assert_eq!(r.item.len(), 1);
    match r.item[0].item {
        Token::String(inner) => {
            assert_eq!(inner.string(source), "hello world");
            assert_eq!(inner, Span { start: 1, end: 12 });
        },
        _ => panic!("expected a string token"),
    }
    assert_eq!(r.item[0].span, Span { start: 0, end: 13 });
}

#[test]
fn double_quoted_string() {
    let source = "\"a b\"";
    let r = parse(source).unwrap();
    assert_eq!(r.item.len(), 1);
    match r.item[0].item {
        Token::String(inner) => assert_eq!(inner.string(source), "a b"),
        _ => panic!("expected a string token"),
    }
}

#[test]
fn bare_then_glob() {
    let source = "ls *.txt";
    let r = parse(source).unwrap();
    assert_eq!(r.item.len(), 3);
    assert!(matches!(r.item[0].item, Token::Bare));
    assert!(matches!(r.item[1].item, Token::Whitespace));
    assert!(matches!(r.item[2].item, Token::GlobPattern));
    assert_eq!(r.item[2].span.string(source), "*.txt");
}

#[test]
fn flag_inner_name() {
    let source = "--path";
    let r = parse(source).unwrap();
    assert_eq!(r.item.len(), 1);
    match r.item[0].item {
        Token::Flag(inner) => assert_eq!(inner.string(source), "path"),
        _ => panic!("expected a flag token"),
    }
    assert_eq!(r.item[0].span, Span { start: 0, end: 6 });
}

#[test]
fn spans_non_decreasing_and_bounded() {
    let source = "ls 'a b' ; foo --x *.rs";
    let r = parse(source).unwrap();
    let toks = &r.item;
    assert!(!toks.is_empty());
    for t in toks.iter() {
        assert!(t.span.start <= t.span.end);
        assert!(t.span.end <= source.chars().count());
    }
    for w in toks.windows(2) {
        assert!(w[0].span.end <= w[1].span.start);
    }
    assert!(toks.last().unwrap().span.end <= source.chars().count());
}

#[test]
fn unterminated_quote_is_a_lexer_failure() {
    let err = parse("ls 'abc").unwrap_err();
    match &err.error {
        ProximateShellError::ParseError(span, reason) => {
            assert_eq!(*span, Span { start: 0, end: 0 });
            assert_eq!(reason.as_deref(), Some("parse error"));
        },
        _ => panic!("expected a parse error"),
    }
    assert!(err.cause.is_none());
    assert_eq!(err.render(), "parse error");
    assert!(parse("'abc").is_err());
    assert!(parse("ls \"abc").is_err());
}

#[test]
fn unparseable_tail_is_discarded() {
    // a tail the grammar does not cover is dropped, not a failure
    let r = parse("ls (").unwrap();
    assert_eq!(r.item.len(), 1);
    assert!(matches!(r.item[0].item, Token::Bare));
    assert_eq!(r.span, Span { start: 0, end: 2 });
}

#[test]
fn trailing_separator_rolled_back() {
    let r = parse("ls ; ").unwrap();
    assert_eq!(r.item.len(), 1);
    assert!(matches!(r.item[0].item, Token::Bare));
    assert_eq!(r.span, Span { start: 0, end: 2 });
}

#[test]
fn separator_splits_words() {
    let r = parse("a;b").unwrap();
    assert_eq!(r.item.len(), 3);
    assert!(matches!(r.item[0].item, Token::Bare));
    assert!(matches!(r.item[1].item, Token::Separator));
    assert!(matches!(r.item[2].item, Token::Bare));
}

#[test]
fn external_word_token() {
    let source = "+x";
    let r = parse(source).unwrap();
    assert_eq!(r.item.len(), 1);
    assert!(matches!(r.item[0].item, Token::ExternalWord));
    assert_eq!(r.item[0].span.string(source), "+x");
}

#[test]
fn external_words_end_at_whitespace() {
    let source = "+x +y";
    let r = parse(source).unwrap();
    assert_eq!(r.item.len(), 3);
    assert!(matches!(r.item[0].item, Token::ExternalWord));
    assert!(matches!(r.item[1].item, Token::Whitespace));
    assert!(matches!(r.item[2].item, Token::ExternalWord));
    assert_eq!(r.item[2].span.string(source), "+y");
}

#[test]
fn dots_are_bare() {
    let r = parse("..").unwrap();
    assert_eq!(r.item.len(), 1);
    assert!(matches!(r.item[0].item, Token::Bare));
}

#[test]
fn question_mark_reclassifies_word() {
    let source = "fo?";
    let r = parse(source).unwrap();
    assert_eq!(r.item.len(), 1);
    assert!(matches!(r.item[0].item, Token::GlobPattern));
    assert_eq!(r.item[0].span.string(source), "fo?");
}

#[test]
fn path_with_glob_in_continuation() {
    let source = "src/*.rs";
    let r = parse(source).unwrap();
    assert_eq!(r.item.len(), 1);
    assert!(matches!(r.item[0].item, Token::GlobPattern));
    assert_eq!(r.item[0].span.string(source), "src/*.rs");
}

#[test]
fn empty_input_no_tokens() {
    let r = parse("").unwrap();
    assert_eq!(r.item.len(), 0);
    assert_eq!(r.span, Span { start: 0, end: 0 });
}

#[test]
fn token_descriptions() {
    assert_eq!(Token::Bare.desc(), "bare");
    assert_eq!(Token::Whitespace.desc(), "whitespace");
    assert_eq!(Token::Separator.desc(), "separator");
    assert_eq!(Token::GlobPattern.desc(), "glob pattern");
    assert_eq!(Token::ExternalWord.desc(), "external word");
    assert_eq!(Token::String(Span { start: 0, end: 0 }).desc(), "string");
    assert_eq!(Token::Flag(Span { start: 0, end: 0 }).desc(), "flag");
}
