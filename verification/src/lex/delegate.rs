//! The rules for quoted tokens and comments, which a delegate decides.

use vstd::prelude::*;

use crate::lex::chars::{
    byte_of, is_close_char, is_open_char, is_white_space,
    lemma_byte_of_bounds, lemma_byte_of_step, lemma_run_end_bounds, run_end,
    scan_run, RunKind,
};
use crate::lex::standard::{char_span, quote_char, FlatToken, Quote};
use crate::source::{char_utf8_len, char_width, chars_width, Offset, Span, Spanned};

verus! {

/// A quoted token: its quote, and the span of its contents.
#[derive(Clone, Copy, Debug, PartialEq, Eq, Hash, Structural)]
pub struct QuoteResult {
    pub quote: Quote,
    pub inner: Span,
}

impl QuoteResult {
    pub fn new(quote: Quote, inner: Span) -> (result: QuoteResult)
        ensures
            result == (QuoteResult { quote, inner }),
    {
        QuoteResult { quote, inner }
    }
}

/// Decides how quoted tokens are read and where comments are.
pub trait StandardDelegate {
    /// The quoted token that opens with the quote `quote` at position
    /// `start`, and the position after it; `None` where it cannot be read.
    spec fn spec_quote(cs: Seq<char>, start: int, quote: Quote) -> Option<(Spanned<QuoteResult>, int)>;

    /// The comment that starts at position `pos`, and the position after it.
    spec fn spec_comment(cs: Seq<char>, pos: int) -> Option<(Spanned<FlatToken>, int)>;

    /// Reads the quoted token that opens at `start`, whose byte offset is
    /// `start_byte`.
    fn quote(chars: &Vec<char>, start: usize, start_byte: usize, quote: Quote) -> (read: (Spanned<QuoteResult>, usize))
        requires
            start < chars@.len(),
            start_byte == byte_of(chars@, start as int),
            chars_width(chars@) <= usize::MAX,
            Self::spec_quote(chars@, start as int, quote) is Some,
        ensures
            Self::spec_quote(chars@, start as int, quote) == Some((read.0, read.1 as int)),
    ;

    /// Reads the comment that starts at `pos`, whose byte offset is
    /// `pos_byte`, if one does.
    fn comment(chars: &Vec<char>, pos: usize, pos_byte: usize) -> (read: Option<(Spanned<FlatToken>, usize)>)
        requires
            pos <= chars@.len(),
            pos_byte == byte_of(chars@, pos as int),
            chars_width(chars@) <= usize::MAX,
        ensures
            match read {
                None => Self::spec_comment(chars@, pos as int) is None,
                Some((token, next)) => Self::spec_comment(chars@, pos as int) == Some((token, next as int))
                    && pos < next <= chars@.len(),
            },
    ;
}

/// What the default delegate reads inside quotes.
#[derive(Clone, Copy, Debug, PartialEq, Eq, Hash, Structural)]
pub enum DefaultStringWord {
    Error,
    /// A character other than a delimiter or white space, followed by a run
    /// of characters other than white space and opening delimiters. The run
    /// includes the closing quote.
    Contents,
}

/// The default delegate: no comments, and quoted contents that run up to
/// white space or an opening delimiter.
#[derive(Clone, Copy, Debug, PartialEq, Eq, Hash, Structural)]
pub struct DefaultDelegate;

/// Whether `c` may start the contents of a quoted token.
pub open spec fn starts_contents(c: char) -> bool {
    !is_open_char(c) && !is_close_char(c) && !is_white_space(c)
}

/// The quoted token of the default delegate: the contents start right after
/// the quote with a character other than a delimiter or white space, and run
/// up to white space or an opening delimiter. The last character of the run
/// is taken as the closing quote. `None` where no contents start there.
pub open spec fn default_quote(cs: Seq<char>, start: int, quote: Quote) -> Option<(Spanned<QuoteResult>, int)> {
    let p = start + 1;
    if p < cs.len() && starts_contents(cs[p]) {
        let end = run_end(cs, p + 1, RunKind::Contents);
        let inner = Span {
            start: Offset { byte: byte_of(cs, p) as usize },
            end: Offset { byte: (byte_of(cs, end) - char_width(quote_char(quote))) as usize },
        };
        Some((Spanned { span: char_span(cs, start, end), item: QuoteResult { quote, inner } }, end))
    } else {
        None
    }
}

impl StandardDelegate for DefaultDelegate {
    open spec fn spec_quote(cs: Seq<char>, start: int, quote: Quote) -> Option<(Spanned<QuoteResult>, int)> {
        default_quote(cs, start, quote)
    }

    open spec fn spec_comment(cs: Seq<char>, pos: int) -> Option<(Spanned<FlatToken>, int)> {
        None
    }

    fn quote(chars: &Vec<char>, start: usize, start_byte: usize, quote: Quote) -> (read: (Spanned<QuoteResult>, usize)) {
        proof {
            lemma_byte_of_bounds(chars@, 0, chars@.len() as int);
        }
        let p = start + 1;
        proof {
            lemma_byte_of_step(chars@, start as int);
            lemma_byte_of_step(chars@, p as int);
            lemma_byte_of_bounds(chars@, p + 1, chars@.len() as int);
            lemma_run_end_bounds(chars@, p + 1, RunKind::Contents);
        }
        let p_byte = start_byte + char_utf8_len(chars[start]);
        let after = p_byte + char_utf8_len(chars[p]);
        let (end, end_byte) = scan_run(chars, p + 1, after, RunKind::Contents);
        proof {
            lemma_byte_of_bounds(chars@, p + 1, end as int);
        }
        let inner = Span::new(p_byte, end_byte - char_utf8_len(quote.char()));
        (Spanned::new(Span::new(start_byte, end_byte), QuoteResult::new(quote, inner)), end)
    }

    fn comment(chars: &Vec<char>, pos: usize, pos_byte: usize) -> (read: Option<(Spanned<FlatToken>, usize)>) {
        None
    }
}

} // verus!
