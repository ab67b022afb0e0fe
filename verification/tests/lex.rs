use wyst::lex::delegate::DefaultDelegate;
use wyst::lex::standard::{Delimiter, FlatToken, Quote};
use wyst::lex::token_builder::TokenBuilder;
use wyst::lex::top_builder::TopBuilder;
use wyst::lex::reader::{ReadTokens, Reader};
use wyst::lex::tree::{Leaf, ReaderNext, Token, TokenTree};
use wyst::source::{AddSpan, Source, Span};

fn lex(source: &str) -> Vec<wyst::source::Spanned<FlatToken>> {
    FlatToken::lex_source::<DefaultDelegate>(source).collect_tokens()
}

#[test]
fn lex_whitespace() {
    let tokens = lex("   ");
    let mut b = TopBuilder::new();
    assert_eq!(tokens, vec![b.ws("   "), b.eof()]);
}

#[test]
fn lex_newlines() {
    let tokens = lex("   \n   ");
    let mut b = TopBuilder::new();
    assert_eq!(tokens, vec![b.ws("   "), b.newline(), b.ws("   "), b.eof()]);
}

#[test]
fn lex_delimiters() {
    let tokens = lex("   hello { world() }   ");
    let mut b = TopBuilder::new();
    assert_eq!(
        tokens,
        vec![
            b.ws("   "),
            b.word("hello"),
            b.ws(" "),
            b.open("{"),
            b.ws(" "),
            b.word("world"),
            b.open("("),
            b.close(")"),
            b.ws(" "),
            b.close("}"),
            b.ws("   "),
            b.eof()
        ]
    );
}

#[test]
fn lex_quotes_by_default() {
    let tokens = lex(r#"   hello( "world" )   "#);
    let mut b = TopBuilder::new();
    assert_eq!(
        tokens,
        vec![
            b.ws("   "),
            b.word("hello"),
            b.open("("),
            b.ws(" "),
            b.quote("world", Quote::DoubleQuote),
            b.ws(" "),
            b.close(")"),
            b.ws("   "),
            b.eof()
        ]
    );
}

#[test]
fn lex_empty_source_is_just_eof() {
    let tokens = lex("");
    let mut b = TopBuilder::new();
    assert_eq!(tokens, vec![b.eof()]);
}

#[test]
fn lex_closing_delimiter_continues_a_word() {
    // After its first character, a word runs on through closing delimiters.
    let tokens = lex("a)b");
    let mut b = TopBuilder::new();
    assert_eq!(tokens, vec![b.word("a)b"), b.eof()]);
}

#[test]
fn lex_multibyte_characters_count_bytes() {
    let tokens = lex("héllo wörld");
    let mut b = TopBuilder::new();
    assert_eq!(tokens, vec![b.word("héllo"), b.ws(" "), b.word("wörld"), b.eof()]);
}

#[test]
fn lex_unicode_white_space() {
    // U+00A0 (no-break space) and a tab are white space; a newline is its own token.
    let tokens = lex("a\u{a0}\tb\nc");
    let mut b = TopBuilder::new();
    assert_eq!(
        tokens,
        vec![b.word("a"), b.ws("\u{a0}\t"), b.word("b"), b.newline(), b.word("c"), b.eof()]
    );
}

#[test]
fn lex_single_quote_and_backtick_by_default() {
    let tokens = lex("'a' `b`");
    let mut b = TopBuilder::new();
    assert_eq!(
        tokens,
        vec![
            b.quote("a", Quote::SingleQuote),
            b.ws(" "),
            b.quote("b", Quote::Backtick),
            b.eof()
        ]
    );
}

fn source(string: &str) -> Source {
    Source::new("<test>", string)
}

#[test]
fn read_whitespace() {
    let s = source("   ");
    let tokens = FlatToken::read_source::<DefaultDelegate>(&s);
    let mut b = TokenBuilder::new();
    assert_eq!(tokens, vec![b.ws("   "), b.eof()]);
}

#[test]
fn read_newlines() {
    let s = source("   \n   ");
    let tokens = FlatToken::read_source::<DefaultDelegate>(&s);
    let mut b = TokenBuilder::new();
    assert_eq!(tokens, vec![b.ws("   "), b.newline(), b.ws("   "), b.eof()]);
}

#[test]
fn read_delimiters() {
    let s = source("   hello { world() }   ");
    let tokens = FlatToken::read_source::<DefaultDelegate>(&s);
    let mut b = TokenBuilder::new();
    let expected = vec![
        b.ws("   "),
        b.word("hello"),
        b.ws(" "),
        b.delimited(Delimiter::Brace, |b| {
            vec![
                b.ws(" "),
                b.word("world"),
                b.delimited(Delimiter::Paren, |_| vec![]),
                b.ws(" "),
            ]
        }),
        b.ws("   "),
        b.eof(),
    ];
    assert_eq!(tokens, expected);
}

#[test]
fn read_quotes_not_special() {
    let s = source(r#"   hello( "world" )   "#);
    let tokens = FlatToken::read_source::<DefaultDelegate>(&s);
    let mut b = TokenBuilder::new();
    let expected = vec![
        b.ws("   "),
        b.word("hello"),
        b.delimited(Delimiter::Paren, |b| {
            vec![b.ws(" "), b.quote(Quote::from_char('"'), "world"), b.ws(" ")]
        }),
        b.ws("   "),
        b.eof(),
    ];
    assert_eq!(tokens, expected);
}

#[test]
fn quote_chars_round_trip() {
    for quote in [Quote::DoubleQuote, Quote::SingleQuote, Quote::Backtick] {
        assert_eq!(Quote::from_char(quote.char()), quote);
    }
    assert_eq!(Quote::DoubleQuote.char(), '"');
    assert_eq!(Quote::SingleQuote.char(), '\'');
    assert_eq!(Quote::Backtick.char(), '`');
}

#[test]
fn delimiter_chars() {
    assert_eq!(Delimiter::Paren.open_char(), '(');
    assert_eq!(Delimiter::Paren.close_char(), ')');
    assert_eq!(Delimiter::Brace.open_char(), '{');
    assert_eq!(Delimiter::Brace.close_char(), '}');
    assert_eq!(Delimiter::Bracket.open_char(), '[');
    assert_eq!(Delimiter::Bracket.close_char(), ']');
}

#[test]
fn top_builder_comment_spans() {
    let mut b = TopBuilder::new();
    let _ = b.ws("  ");
    let comment = b.comment(" line comment", ("#", ""));
    assert_eq!(comment.span, Span::new(2, 16));
    assert_eq!(comment.item, FlatToken::Comment(Span::new(3, 16)));
}

#[test]
fn read_tokens_one_at_a_time() {
    let s = source("a (b )");
    let flat = FlatToken::lex_source::<DefaultDelegate>(s.contents()).collect_tokens();
    let mut read = ReadTokens::new(TokenTree::new(), flat, &s);
    let mut tokens = vec![];
    while let Some(token) = read.next() {
        tokens.push(token);
    }
    assert_eq!(tokens, FlatToken::read_source::<DefaultDelegate>(&s));
    assert_eq!(tokens.len(), 4);
    assert_eq!(read.next(), None);
}

#[test]
fn spanned_attaches_span() {
    let s = 5u8.spanned(Span::new(1, 2));
    assert_eq!(s.span, Span::new(1, 2));
    assert_eq!(s.item, 5u8);
}

#[test]
fn token_tree_reads_through_the_reader_trait() {
    let source = Source::new("x", "a (b)");
    let mut tree = TokenTree::new();
    assert!(matches!(tree.next(), ReaderNext::Buffer));
    tree.word(&source, Span::new(0, 1));
    tree.open(&source, Span::new(2, 3), Delimiter::Paren);
    tree.word(&source, Span::new(3, 4));
    tree.close(&source, Span::new(4, 5), Delimiter::Paren);
    tree.eof(&source, Span::new(5, 5));
    match tree.next() {
        ReaderNext::Token(t) => assert!(matches!(t.item, Token::Leaf(Leaf::Word))),
        _ => panic!("expected the word"),
    }
    match tree.next() {
        ReaderNext::Token(t) => {
            assert!(matches!(t.item, Token::Delimited(_)));
            assert_eq!(t.span, Span::new(2, 5));
        },
        _ => panic!("expected the group"),
    }
    match tree.next() {
        ReaderNext::Token(t) => assert!(matches!(t.item, Token::Leaf(Leaf::EOF))),
        _ => panic!("expected the end"),
    }
    assert!(matches!(tree.next(), ReaderNext::EOF));
}

#[test]
fn delimiter_characters_lex_back() {
    for d in [Delimiter::Paren, Delimiter::Brace, Delimiter::Bracket] {
        let close = d.close_char().to_string();
        let tokens = lex(&close);
        assert_eq!(tokens.len(), 2);
        assert_eq!(tokens[0].item, FlatToken::Close(d));
        assert_eq!(tokens[0].span, Span::new(0, 1));
        assert_eq!(tokens[1].item, FlatToken::EOF);
        let open = d.open_char().to_string();
        let tokens = lex(&open);
        assert_eq!(tokens[0].item, FlatToken::Open(d));
        assert_eq!(tokens[1].item, FlatToken::EOF);
    }
}
