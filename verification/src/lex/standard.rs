//! Flat tokens: the most basic tokenization of a source text.

use std::marker::PhantomData;

use vstd::prelude::*;

use crate::lex::chars::{
    byte_of, in_run, is_close, is_close_char, is_open, is_open_char, is_quote, is_quote_char,
    is_white_space, is_white_space_char, lemma_byte_of_bounds, lemma_byte_of_mono, lemma_byte_of_step,
    lemma_run_end_bounds, run_end, scan_run, chars_of, RunKind,
};
use crate::lex::delegate::{starts_contents, DefaultDelegate, StandardDelegate};
use crate::source::{char_utf8_len, char_width, chars_width, Offset, Span, Spanned};

verus! {

/// A quote character.
#[derive(Clone, Copy, Debug, PartialEq, Eq, Hash, Structural)]
pub enum Quote {
    /// `"`
    DoubleQuote,
    /// `'`
    SingleQuote,
    /// `` ` ``
    Backtick,
}

/// The character of a quote.
pub open spec fn quote_char(quote: Quote) -> char {
    match quote {
        Quote::DoubleQuote => '"',
        Quote::SingleQuote => '\'',
        Quote::Backtick => '`',
    }
}

/// The quote of a quote character.
pub open spec fn quote_of(c: char) -> Quote {
    if c == '"' {
        Quote::DoubleQuote
    } else if c == '\'' {
        Quote::SingleQuote
    } else {
        Quote::Backtick
    }
}

/// A quote's character reads back as that quote, and the character of the
/// quote of a quote character is that character.
pub proof fn lemma_quote_char_roundtrip(quote: Quote, c: char)
    ensures
        quote_of(quote_char(quote)) == quote,
        is_quote_char(quote_char(quote)),
        is_quote_char(c) ==> quote_char(quote_of(c)) == c,
{
}

impl Quote {
    pub fn char(self) -> (c: char)
        ensures
            c == quote_char(self),
    {
        match self {
            Quote::DoubleQuote => '"',
            Quote::SingleQuote => '\'',
            Quote::Backtick => '`',
        }
    }

    /// The quote whose character is `c`, which must be a quote character.
    pub fn from_char(c: char) -> (quote: Quote)
        requires
            is_quote_char(c),
        ensures
            quote == quote_of(c),
            quote_char(quote) == c,
    {
        if c == '"' {
            Quote::DoubleQuote
        } else if c == '\'' {
            Quote::SingleQuote
        } else {
            Quote::Backtick
        }
    }
}

/// A pair of delimiter characters.
#[derive(Clone, Copy, Debug, PartialEq, Eq, Hash, Structural)]
pub enum Delimiter {
    /// `(` `)`
    Paren,
    /// `{` `}`
    Brace,
    /// `[` `]`
    Bracket,
}

pub open spec fn open_char_of(d: Delimiter) -> char {
    match d {
        Delimiter::Paren => '(',
        Delimiter::Brace => '{',
        Delimiter::Bracket => '[',
    }
}

pub open spec fn close_char_of(d: Delimiter) -> char {
    match d {
        Delimiter::Paren => ')',
        Delimiter::Brace => '}',
        Delimiter::Bracket => ']',
    }
}

/// The delimiter of an opening or closing character.
pub open spec fn delimiter_of(c: char) -> Delimiter {
    if c == '(' || c == ')' {
        Delimiter::Paren
    } else if c == '{' || c == '}' {
        Delimiter::Brace
    } else {
        Delimiter::Bracket
    }
}

/// A delimiter's opening and closing characters differ, are an opening and a
/// closing character, and read back as the delimiter.
pub proof fn lemma_delimiter_chars(d: Delimiter)
    ensures
        open_char_of(d) != close_char_of(d),
        is_open_char(open_char_of(d)),
        is_close_char(close_char_of(d)),
        delimiter_of(open_char_of(d)) == d,
        delimiter_of(close_char_of(d)) == d,
{
}

/// Lexing a delimiter's opening character alone with the default delegate
/// gives `Open` of that delimiter, then `EOF`; its closing character alone
/// gives `Close` of that delimiter, then `EOF`.
pub proof fn lemma_delimiter_lexes(d: Delimiter)
    ensures
        spec_lex::<DefaultDelegate>(seq![open_char_of(d)]) == Some(
            seq![
                Spanned { span: char_span(seq![open_char_of(d)], 0, 1), item: FlatToken::Open(d) },
                Spanned { span: char_span(seq![open_char_of(d)], 1, 1), item: FlatToken::EOF },
            ],
        ),
        spec_lex::<DefaultDelegate>(seq![close_char_of(d)]) == Some(
            seq![
                Spanned { span: char_span(seq![close_char_of(d)], 0, 1), item: FlatToken::Close(d) },
                Spanned { span: char_span(seq![close_char_of(d)], 1, 1), item: FlatToken::EOF },
            ],
        ),
{
    lemma_delimiter_chars(d);
    let o = seq![open_char_of(d)];
    let c = seq![close_char_of(d)];
    assert(spec_lex_from::<DefaultDelegate>(o, 1) == Some(seq![Spanned { span: char_span(o, 1, 1), item: FlatToken::EOF }]));
    assert(spec_lex_from::<DefaultDelegate>(c, 1) == Some(seq![Spanned { span: char_span(c, 1, 1), item: FlatToken::EOF }]));
    assert(spec_token_at::<DefaultDelegate>(o, 0) == Some((Spanned { span: char_span(o, 0, 1), item: FlatToken::Open(d) }, 1int)));
    assert(spec_token_at::<DefaultDelegate>(c, 0) == Some((Spanned { span: char_span(c, 0, 1), item: FlatToken::Close(d) }, 1int)));
}

impl Delimiter {
    pub fn open_char(self) -> (c: char)
        ensures
            c == open_char_of(self),
    {
        match self {
            Delimiter::Paren => '(',
            Delimiter::Brace => '{',
            Delimiter::Bracket => '[',
        }
    }

    pub fn close_char(self) -> (c: char)
        ensures
            c == close_char_of(self),
    {
        match self {
            Delimiter::Paren => ')',
            Delimiter::Brace => '}',
            Delimiter::Bracket => ']',
        }
    }

    /// The delimiter of an opening or closing character.
    pub fn of_char(c: char) -> (d: Delimiter)
        requires
            is_open_char(c) || is_close_char(c),
        ensures
            d == delimiter_of(c),
    {
        if c == '(' || c == ')' {
            Delimiter::Paren
        } else if c == '{' || c == '}' {
            Delimiter::Brace
        } else {
            Delimiter::Bracket
        }
    }
}

/// A token with a quote and the span of its contents inside the quotes.
#[derive(Clone, Copy, Debug, PartialEq, Eq, Hash, Structural)]
pub struct Quoted {
    pub quote: Quote,
    pub inner: Span,
}

/// The most basic tokenization of a source text. It does not decide what a
/// token means; a later phase does.
///
/// - `Word`: a run of characters other than quotes, white space and opening
///   delimiters, which does not start with a closing delimiter
/// - `Whitespace`: a run of white space other than newlines
/// - `Newline`: `\n`
/// - `Quoted`: text that starts with a quote; the delegate decides where it
///   ends
/// - `Open` / `Close`: a delimiter
/// - `Comment`: a comment, which only a delegate produces
/// - `EOF`: the end of the source
#[derive(Clone, Copy, Debug, PartialEq, Eq, Hash)]
pub enum FlatToken {
    Error,
    Word,
    Whitespace,
    Newline,
    Quoted((Quote, Span)),
    Open(Delimiter),
    Close(Delimiter),
    Comment(Span),
    EOF,
}

/// The span from character position `i` to character position `j`.
pub open spec fn char_span(cs: Seq<char>, i: int, j: int) -> Span {
    Span {
        start: Offset { byte: byte_of(cs, i) as usize },
        end: Offset { byte: byte_of(cs, j) as usize },
    }
}

/// The token that starts with the character at `pos`, where no comment
/// starts, and the position after it; `None` where the delegate cannot read
/// a quoted token.
pub open spec fn spec_token_at<S: StandardDelegate>(cs: Seq<char>, pos: int) -> Option<(Spanned<FlatToken>, int)> {
    let c = cs[pos];
    if c == '\n' {
        Some((Spanned { span: char_span(cs, pos, pos + 1), item: FlatToken::Newline }, pos + 1))
    } else if is_white_space(c) {
        let end = run_end(cs, pos + 1, RunKind::Space);
        Some((Spanned { span: char_span(cs, pos, end), item: FlatToken::Whitespace }, end))
    } else if is_quote_char(c) {
        match S::spec_quote(cs, pos, quote_of(c)) {
            None => None,
            Some((quoted, next)) => Some(
                (
                    Spanned {
                        span: quoted.span,
                        item: FlatToken::Quoted((quote_of(c), quoted.item.inner)),
                    },
                    next,
                ),
            ),
        }
    } else if is_open_char(c) {
        Some((Spanned { span: char_span(cs, pos, pos + 1), item: FlatToken::Open(delimiter_of(c)) }, pos + 1))
    } else if is_close_char(c) {
        Some((Spanned { span: char_span(cs, pos, pos + 1), item: FlatToken::Close(delimiter_of(c)) }, pos + 1))
    } else {
        let end = run_end(cs, pos + 1, RunKind::Word);
        Some((Spanned { span: char_span(cs, pos, end), item: FlatToken::Word }, end))
    }
}

/// One step of the lexer at `pos`: the next token, and the position to go on
/// from (`None` once the end of the source is reached).
pub open spec fn spec_lex_next<S: StandardDelegate>(cs: Seq<char>, pos: int) -> Option<(Spanned<FlatToken>, Option<int>)> {
    match S::spec_comment(cs, pos) {
        Some((comment, next)) => Some((comment, Some(next))),
        None => if pos >= cs.len() {
            Some(
                (
                    Spanned {
                        span: char_span(cs, cs.len() as int, cs.len() as int),
                        item: FlatToken::EOF,
                    },
                    None,
                ),
            )
        } else {
            match spec_token_at::<S>(cs, pos) {
                None => None,
                Some((token, next)) => Some((token, Some(next))),
            }
        },
    }
}

/// The tokens of `cs` from position `pos` on, ending with `EOF`; `None`
/// where the delegate cannot read a quoted token or a delegate does not move
/// forward.
pub open spec fn spec_lex_from<S: StandardDelegate>(cs: Seq<char>, pos: int) -> Option<Seq<Spanned<FlatToken>>>
    decreases cs.len() - pos,
{
    if !(0 <= pos <= cs.len()) {
        None
    } else {
        match spec_lex_next::<S>(cs, pos) {
            None => None,
            Some((token, None)) => Some(seq![token]),
            Some((token, Some(next))) => if pos < next <= cs.len() {
                match spec_lex_from::<S>(cs, next) {
                    None => None,
                    Some(rest) => Some(seq![token] + rest),
                }
            } else {
                None
            },
        }
    }
}

/// The tokens of a source text, ending with `EOF`.
pub open spec fn spec_lex<S: StandardDelegate>(cs: Seq<char>) -> Option<Seq<Spanned<FlatToken>>> {
    spec_lex_from::<S>(cs, 0)
}

/// With the default delegate, a token spans exactly the characters it was
/// read from, and is neither an error nor the end of the source.
pub proof fn lemma_default_token_span(cs: Seq<char>, pos: int)
    requires
        0 <= pos < cs.len(),
        spec_token_at::<DefaultDelegate>(cs, pos) is Some,
    ensures
        ({
            let (token, next) = spec_token_at::<DefaultDelegate>(cs, pos).unwrap();
            &&& token.span == char_span(cs, pos, next)
            &&& !(token.item is Error)
            &&& !(token.item is EOF)
        }),
{
}

/// With the default delegate, the tokens from position `pos` on start at the
/// byte offset of `pos`, follow one another without gap or overlap, are
/// never errors, and end with `EOF` at the end of the source.
pub proof fn lemma_default_lex_from_covers(cs: Seq<char>, pos: int)
    requires
        0 <= pos <= cs.len(),
        chars_width(cs) <= usize::MAX,
        spec_lex_from::<DefaultDelegate>(cs, pos) is Some,
    ensures
        ({
            let ts = spec_lex_from::<DefaultDelegate>(cs, pos).unwrap();
            &&& ts.len() > 0
            &&& ts[0].span.start.byte == byte_of(cs, pos)
            &&& forall|i: int| 0 <= i < ts.len() - 1 ==> #[trigger] ts[i].span.end == ts[i + 1].span.start
            &&& forall|i: int| 0 <= i < ts.len() ==> !(#[trigger] ts[i].item is Error)
            &&& forall|i: int| 0 <= i < ts.len() - 1 ==> !(#[trigger] ts[i].item is EOF)
            &&& ts.last().item is EOF
            &&& ts.last().span.start.byte == chars_width(cs)
            &&& ts.last().span.end.byte == chars_width(cs)
        }),
    decreases cs.len() - pos,
{
    lemma_byte_of_bounds(cs, pos, cs.len() as int);
    assert(cs.take(cs.len() as int) =~= cs);
    if pos < cs.len() {
        lemma_default_token_span(cs, pos);
        let (token, next) = spec_token_at::<DefaultDelegate>(cs, pos).unwrap();
        lemma_byte_of_bounds(cs, next, cs.len() as int);
        lemma_default_lex_from_covers(cs, next);
        let rest = spec_lex_from::<DefaultDelegate>(cs, next).unwrap();
        let ts = spec_lex_from::<DefaultDelegate>(cs, pos).unwrap();
        assert(ts == seq![token] + rest);
        assert forall|i: int| 0 <= i < ts.len() - 1 implies #[trigger] ts[i].span.end == ts[i + 1].span.start by {
            if i > 0 {
                assert(ts[i] == rest[i - 1]);
                assert(ts[i + 1] == rest[i]);
            }
        }
        assert forall|i: int| 0 <= i < ts.len() implies !(#[trigger] ts[i].item is Error) by {
            if i > 0 {
                assert(ts[i] == rest[i - 1]);
            }
        }
        assert forall|i: int| 0 <= i < ts.len() - 1 implies !(#[trigger] ts[i].item is EOF) by {
            if i > 0 {
                assert(ts[i] == rest[i - 1]);
            }
        }
    }
}

/// Lexing a source with the default delegate covers all of it: the token
/// spans run from byte 0 to the end without gap or overlap, no token is an
/// error, and the last token is `EOF` at the end.
pub proof fn lemma_default_lex_covers(cs: Seq<char>)
    requires
        chars_width(cs) <= usize::MAX,
        spec_lex::<DefaultDelegate>(cs) is Some,
    ensures
        ({
            let ts = spec_lex::<DefaultDelegate>(cs).unwrap();
            &&& ts.len() > 0
            &&& ts[0].span.start.byte == 0
            &&& forall|i: int| 0 <= i < ts.len() - 1 ==> #[trigger] ts[i].span.end == ts[i + 1].span.start
            &&& forall|i: int| 0 <= i < ts.len() ==> !(#[trigger] ts[i].item is Error)
            &&& forall|i: int| 0 <= i < ts.len() - 1 ==> !(#[trigger] ts[i].item is EOF)
            &&& ts.last().item is EOF
            &&& ts.last().span.end.byte == chars_width(cs)
        }),
{
    lemma_default_lex_from_covers(cs, 0);
    assert(cs.take(0) =~= Seq::<char>::empty());
}

/// What a token of kind `item` that spans character positions `i` to `j` of
/// `cs` is made of, written over the characters themselves:
/// - a newline is one `'\n'`;
/// - white space is a non-empty run of white space other than `'\n'`, as
///   long as it can be;
/// - a word is a non-empty run of characters that are neither quotes, white
///   space nor opening delimiters, that does not start with a closing
///   delimiter, and that runs as long as it can, so it stops right before a
///   quote, white space or an opening delimiter;
/// - a delimiter is its one character;
/// - a quoted token starts with its quote character, followed by contents
///   that start with neither a delimiter nor white space and run up to white
///   space or an opening delimiter, as long as they can; the last of them is
///   taken as the closing quote, so the inner span ends one byte earlier;
/// - `EOF` is empty, at the end.
pub open spec fn token_reads(cs: Seq<char>, item: FlatToken, i: int, j: int) -> bool {
    match item {
        FlatToken::Newline => j == i + 1 && cs[i] == '\n',
        FlatToken::Whitespace => {
            &&& i < j
            &&& forall|k: int| i <= k < j ==> is_white_space(#[trigger] cs[k]) && cs[k] != '\n'
            &&& (j == cs.len() || !is_white_space(cs[j]) || cs[j] == '\n')
        },
        FlatToken::Word => {
            &&& i < j
            &&& cs[i] != ')' && cs[i] != ']' && cs[i] != '}'
            &&& forall|k: int|
                i <= k < j ==> {
                    let c = #[trigger] cs[k];
                    &&& c != '"' && c != '\'' && c != '`'
                    &&& c != '(' && c != '[' && c != '{'
                    &&& !is_white_space(c)
                }
            &&& (j == cs.len() || {
                let c = cs[j];
                ||| c == '"' || c == '\'' || c == '`'
                ||| c == '(' || c == '[' || c == '{'
                ||| is_white_space(c)
            })
        },
        FlatToken::Open(d) => j == i + 1 && cs[i] == (match d {
            Delimiter::Paren => '(',
            Delimiter::Brace => '{',
            Delimiter::Bracket => '[',
        }),
        FlatToken::Close(d) => j == i + 1 && cs[i] == (match d {
            Delimiter::Paren => ')',
            Delimiter::Brace => '}',
            Delimiter::Bracket => ']',
        }),
        FlatToken::Quoted((q, inner)) => {
            &&& i + 1 < j
            &&& cs[i] == (match q {
                Quote::DoubleQuote => '"',
                Quote::SingleQuote => '\'',
                Quote::Backtick => '`',
            })
            &&& cs[i + 1] != ')' && cs[i + 1] != ']' && cs[i + 1] != '}'
            &&& forall|k: int|
                i + 1 <= k < j ==> {
                    let c = #[trigger] cs[k];
                    &&& c != '(' && c != '[' && c != '{'
                    &&& !is_white_space(c)
                }
            &&& (j == cs.len() || {
                let c = cs[j];
                ||| c == '(' || c == '[' || c == '{'
                ||| is_white_space(c)
            })
            &&& inner.start.byte == byte_of(cs, i + 1)
            &&& inner.end.byte == byte_of(cs, j) - 1
        },
        FlatToken::EOF => i == j == cs.len(),
        _ => false,
    }
}

/// With the default delegate, every token read from position `pos` on spans
/// whole characters and is made of what its kind says (`token_reads`): in
/// particular no word holds a quote, white space or an opening delimiter,
/// and a word or a run of white space stops only where it has to.
pub proof fn lemma_default_tokens_read_from(cs: Seq<char>, pos: int)
    requires
        0 <= pos <= cs.len(),
        chars_width(cs) <= usize::MAX,
        spec_lex_from::<DefaultDelegate>(cs, pos) is Some,
    ensures
        forall|k: int|
            0 <= k < spec_lex_from::<DefaultDelegate>(cs, pos).unwrap().len() ==> exists|i: int, j: int|
                pos <= i <= j <= cs.len() && (#[trigger] spec_lex_from::<DefaultDelegate>(cs, pos).unwrap()[k]).span
                    == char_span(cs, i, j) && token_reads(
                    cs,
                    spec_lex_from::<DefaultDelegate>(cs, pos).unwrap()[k].item,
                    i,
                    j,
                ),
    decreases cs.len() - pos,
{
    let ts = spec_lex_from::<DefaultDelegate>(cs, pos).unwrap();
    if pos >= cs.len() {
        assert(ts[0].span == char_span(cs, cs.len() as int, cs.len() as int));
        assert(token_reads(cs, ts[0].item, cs.len() as int, cs.len() as int));
    } else {
        lemma_default_token_span(cs, pos);
        let (token, next) = spec_token_at::<DefaultDelegate>(cs, pos).unwrap();
        let c = cs[pos];
        if c != '\n' && is_white_space(c) {
            lemma_run_end_bounds(cs, pos + 1, RunKind::Space);
        } else if is_quote_char(c) {
            lemma_quote_char_roundtrip(quote_of(c), c);
            assert(pos + 1 < cs.len() && starts_contents(cs[pos + 1]));
            lemma_run_end_bounds(cs, pos + 2, RunKind::Contents);
            assert(char_width(quote_char(quote_of(c))) == 1);
            let end = run_end(cs, pos + 2, RunKind::Contents);
            assert(next == end);
            lemma_byte_of_bounds(cs, pos + 1, end);
            lemma_byte_of_bounds(cs, end, cs.len() as int);
            lemma_byte_of_mono(cs, 0, end);
            assert forall|k: int| pos + 1 <= k < end implies {
                let c = #[trigger] cs[k];
                &&& c != '(' && c != '[' && c != '{'
                &&& !is_white_space(c)
            } by {
                if k >= pos + 2 {
                    assert(in_run(RunKind::Contents, cs[k]));
                }
            }
        } else if is_open_char(c) || is_close_char(c) || c == '\n' {
        } else {
            lemma_run_end_bounds(cs, pos + 1, RunKind::Word);
        }
        assert(token_reads(cs, token.item, pos, next));
        lemma_default_tokens_read_from(cs, next);
        let rest = spec_lex_from::<DefaultDelegate>(cs, next).unwrap();
        assert(ts == seq![token] + rest);
        assert forall|k: int| 0 <= k < ts.len() implies exists|i: int, j: int|
            pos <= i <= j <= cs.len() && (#[trigger] ts[k]).span == char_span(cs, i, j) && token_reads(cs, ts[k].item, i, j) by {
            if k == 0 {
                assert(ts[0] == token);
                assert(pos <= pos <= next <= cs.len() && ts[0].span == char_span(cs, pos, next) && token_reads(cs, ts[0].item, pos, next));
            } else {
                assert(ts[k] == rest[k - 1]);
                let (i, j) = choose|i: int, j: int|
                    next <= i <= j <= cs.len() && (#[trigger] rest[k - 1]).span == char_span(cs, i, j) && token_reads(cs, rest[k - 1].item, i, j);
                assert(pos <= i <= j <= cs.len() && ts[k].span == char_span(cs, i, j) && token_reads(cs, ts[k].item, i, j));
            }
        }
    }
}

/// Every token that lexing a source with the default delegate gives is made
/// of what its kind says (`token_reads`): a word never holds a quote
/// character, so `class="x"` gives the word `class=` and then a quoted
/// token; it never holds white space or an opening delimiter either, and it
/// runs as long as it can.
pub proof fn lemma_default_tokens_read(cs: Seq<char>)
    requires
        chars_width(cs) <= usize::MAX,
        spec_lex::<DefaultDelegate>(cs) is Some,
    ensures
        forall|k: int|
            0 <= k < spec_lex::<DefaultDelegate>(cs).unwrap().len() ==> exists|i: int, j: int|
                0 <= i <= j <= cs.len() && (#[trigger] spec_lex::<DefaultDelegate>(cs).unwrap()[k]).span
                    == char_span(cs, i, j) && token_reads(cs, spec_lex::<DefaultDelegate>(cs).unwrap()[k].item, i, j),
{
    lemma_default_tokens_read_from(cs, 0);
}

/// Every quote character is followed by a character that may start quoted
/// contents.
pub open spec fn quotes_open_contents(cs: Seq<char>) -> bool {
    forall|i: int|
        0 <= i < cs.len() && is_quote_char(#[trigger] cs[i]) ==> i + 1 < cs.len() && starts_contents(cs[i + 1])
}

/// With the default delegate, a source in which every quote character is
/// followed by a character that may start quoted contents lexes from every
/// position.
pub proof fn lemma_default_lex_from_succeeds(cs: Seq<char>, pos: int)
    requires
        0 <= pos <= cs.len(),
        quotes_open_contents(cs),
    ensures
        spec_lex_from::<DefaultDelegate>(cs, pos) is Some,
    decreases cs.len() - pos,
{
    if pos < cs.len() {
        let c = cs[pos];
        if c != '\n' && is_white_space(c) {
            lemma_run_end_bounds(cs, pos + 1, RunKind::Space);
        } else if is_quote_char(c) {
            assert(is_quote_char(cs[pos]));
            lemma_run_end_bounds(cs, pos + 2, RunKind::Contents);
        } else if !is_open_char(c) && !is_close_char(c) && c != '\n' {
            lemma_run_end_bounds(cs, pos + 1, RunKind::Word);
        }
        let (token, next) = spec_token_at::<DefaultDelegate>(cs, pos).unwrap();
        lemma_default_lex_from_succeeds(cs, next);
    }
}

/// With the default delegate, a source in which every quote character is
/// followed by a character that may start quoted contents lexes.
pub proof fn lemma_default_lex_succeeds(cs: Seq<char>)
    requires
        quotes_open_contents(cs),
    ensures
        spec_lex::<DefaultDelegate>(cs) is Some,
{
    lemma_default_lex_from_succeeds(cs, 0);
}

/// The lexer over a source text, with the delegate `S` deciding quotes and
/// comments.
pub struct LexTop<S> {
    pub chars: Vec<char>,
    /// The position of the next character.
    pub pos: usize,
    /// The byte offset of `pos`.
    pub byte: usize,
    pub done: bool,
    pub source: PhantomData<S>,
}

impl<S: StandardDelegate> LexTop<S> {
    /// The lexer's positions agree with its characters.
    pub open spec fn wf(&self) -> bool {
        &&& self.pos <= self.chars@.len()
        &&& self.byte == byte_of(self.chars@, self.pos as int)
        &&& chars_width(self.chars@) <= usize::MAX
    }

    /// The tokens that the lexer has left to give.
    pub open spec fn remaining(&self) -> Option<Seq<Spanned<FlatToken>>> {
        if self.done {
            Some(Seq::empty())
        } else {
            spec_lex_from::<S>(self.chars@, self.pos as int)
        }
    }

    /// The byte offset of position `to`, counted on from `pos`.
    fn byte_at(&self, to: usize) -> (byte: usize)
        requires
            self.wf(),
            self.pos <= to <= self.chars@.len(),
        ensures
            byte == byte_of(self.chars@, to as int),
    {
        let mut i = self.pos;
        let mut b = self.byte;
        while i < to
            invariant
                self.wf(),
                self.pos <= i <= to <= self.chars@.len(),
                b == byte_of(self.chars@, i as int),
            decreases to - i,
        {
            proof {
                lemma_byte_of_step(self.chars@, i as int);
                lemma_byte_of_bounds(self.chars@, i + 1, self.chars@.len() as int);
            }
            b = b + char_utf8_len(self.chars[i]);
            i = i + 1;
        }
        b
    }

    /// The token that starts at `pos`, where no comment starts.
    fn token_at(&self) -> (read: (Spanned<FlatToken>, usize))
        requires
            self.wf(),
            self.pos < self.chars@.len(),
            spec_token_at::<S>(self.chars@, self.pos as int) is Some,
        ensures
            spec_token_at::<S>(self.chars@, self.pos as int) == Some((read.0, read.1 as int)),
    {
        let cs = Ghost(self.chars@);
        let pos = self.pos;
        proof {
            lemma_byte_of_bounds(cs@, 0, cs@.len() as int);
        }
        let c = self.chars[pos];
        proof {
            lemma_byte_of_step(cs@, pos as int);
            lemma_byte_of_bounds(cs@, pos + 1, cs@.len() as int);
        }
        let next_byte = self.byte + char_utf8_len(c);
        if c == '\n' {
            (Spanned::new(Span::new(self.byte, next_byte), FlatToken::Newline), pos + 1)
        } else if is_white_space_char(c) {
            let (end, end_byte) = scan_run(&self.chars, pos + 1, next_byte, RunKind::Space);
            (Spanned::new(Span::new(self.byte, end_byte), FlatToken::Whitespace), end)
        } else if is_quote(c) {
            let quote = Quote::from_char(c);
            let (quoted, next) = S::quote(&self.chars, pos, self.byte, quote);
            (Spanned::new(quoted.span, FlatToken::Quoted((quote, quoted.item.inner))), next)
        } else if is_open(c) {
            (Spanned::new(Span::new(self.byte, next_byte), FlatToken::Open(Delimiter::of_char(c))), pos + 1)
        } else if is_close(c) {
            (Spanned::new(Span::new(self.byte, next_byte), FlatToken::Close(Delimiter::of_char(c))), pos + 1)
        } else {
            let (end, end_byte) = scan_run(&self.chars, pos + 1, next_byte, RunKind::Word);
            (Spanned::new(Span::new(self.byte, end_byte), FlatToken::Word), end)
        }
    }

    /// Whether the next token can be read: the lexer is done, or a token
    /// starts at `pos` and ends further on within the characters.
    pub open spec fn can_step(&self) -> bool {
        self.done || match spec_lex_next::<S>(self.chars@, self.pos as int) {
            None => false,
            Some((_, None)) => true,
            Some((_, Some(next))) => self.pos < next <= self.chars@.len(),
        }
    }

    /// The next token, or `None` after `EOF`.
    pub fn next(&mut self) -> (token: Option<Spanned<FlatToken>>)
        requires
            old(self).wf(),
            old(self).can_step(),
        ensures
            final(self).wf(),
            final(self).chars@ == old(self).chars@,
            old(self).done ==> token is None && *final(self) == *old(self),
            !old(self).done ==> match spec_lex_next::<S>(old(self).chars@, old(self).pos as int) {
                Some((t, None)) => token == Some(t) && final(self).done,
                Some((t, Some(next))) => token == Some(t) && !final(self).done && final(self).pos == next,
                None => false,
            },
            old(self).remaining() is Some ==> final(self).remaining() is Some && match token {
                None => old(self).done && final(self).done,
                Some(t) => old(self).remaining().unwrap() == seq![t] + final(self).remaining().unwrap(),
            },
            !old(self).done ==> token is Some,
            !old(self).done && !final(self).done ==> old(self).pos < final(self).pos,
    {
        if self.done {
            return None;
        }
        match S::comment(&self.chars, self.pos, self.byte) {
            Some((comment, next)) => {
                let byte = self.byte_at(next);
                self.pos = next;
                self.byte = byte;
                return Some(comment);
            },
            None => {},
        }
        if self.pos >= self.chars.len() {
            self.done = true;
            return Some(Spanned::new(Span::EOF(Offset::new(self.byte)), FlatToken::EOF));
        }
        let (token, next) = self.token_at();
        let byte = self.byte_at(next);
        self.pos = next;
        self.byte = byte;
        Some(token)
    }

    /// All the tokens that the lexer has left to give.
    pub fn collect_tokens(self) -> (tokens: Vec<Spanned<FlatToken>>)
        requires
            self.wf(),
            self.remaining() is Some,
        ensures
            tokens@ == self.remaining().unwrap(),
    {
        let ghost all = self.remaining().unwrap();
        let mut lexer = self;
        let mut tokens: Vec<Spanned<FlatToken>> = Vec::new();
        loop
            invariant
                lexer.wf(),
                lexer.remaining() is Some,
                all == tokens@ + lexer.remaining().unwrap(),
                all == self.remaining().unwrap(),
            decreases (if lexer.done { 0 } else { lexer.chars@.len() - lexer.pos + 1 }),
        {
            match lexer.next() {
                None => {
                    assert(tokens@ + Seq::<Spanned<FlatToken>>::empty() =~= tokens@);
                    return tokens;
                },
                Some(t) => {
                    assert(tokens@.push(t) + lexer.remaining().unwrap() =~= tokens@ + (seq![t] + lexer.remaining().unwrap()));
                    tokens.push(t);
                },
            }
        }
    }
}

impl FlatToken {
    /// A lexer over `source`.
    pub fn lex_source<S: StandardDelegate>(source: &str) -> (lexer: LexTop<S>)
        ensures
            lexer.wf(),
            lexer.chars@ == source@,
            lexer.remaining() == spec_lex::<S>(source@),
    {
        proof {
            crate::source::lemma_encode_utf8_len(source@);
        }
        let _total = source.as_bytes().len();
        let chars = chars_of(source);
        assert(chars@.take(0) =~= Seq::<char>::empty());
        LexTop { chars, pos: 0, byte: 0, done: false, source: PhantomData }
    }
}

} // verus!
