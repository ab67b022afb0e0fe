//! Building the flat tokens that lexing a text gives, piece by piece.

use vstd::prelude::*;
use vstd::string::StrSliceExecFns;

use crate::lex::standard::{Delimiter, FlatToken, Quote};
use crate::source::{HasLen, Offset, Span, Spanned, char_width};

verus! {

/// The only character of `s`, if it has exactly one.
pub fn single_char(s: &str) -> (c: Option<char>)
    ensures
        c matches Some(ch) ==> s@ == seq![ch],
        c is None ==> s@.len() != 1,
{
    if s.unicode_len() == 1 {
        let ch = s.get_char(0);
        assert(s@ =~= seq![ch]);
        Some(ch)
    } else {
        None
    }
}

/// Builds flat tokens one after the other, each starting where the last one
/// ended.
pub struct TopBuilder {
    pub pos: usize,
}

impl TopBuilder {
    pub fn new() -> (builder: TopBuilder)
        ensures
            builder.pos == 0,
    {
        TopBuilder { pos: 0 }
    }

    /// The span of the next `chars`.
    fn consume<H: HasLen>(&mut self, chars: H) -> (span: Span)
        requires
            old(self).pos + chars.spec_utf8_len() <= usize::MAX,
        ensures
            span == Span::new_spec(old(self).pos, final(self).pos),
            final(self).pos == old(self).pos + chars.spec_utf8_len(),
    {
        let pre = self.pos;
        self.pos = self.pos + chars.utf8_len();
        Span::new(pre, self.pos)
    }

    pub fn eof(&mut self) -> (token: Spanned<FlatToken>)
        ensures
            token == Spanned::new_spec(Span::new_spec(old(self).pos, old(self).pos), FlatToken::EOF),
            final(self).pos == old(self).pos,
    {
        Spanned::new(Span::EOF(Offset::new(self.pos)), FlatToken::EOF)
    }

    pub fn ws<H: HasLen>(&mut self, chars: H) -> (token: Spanned<FlatToken>)
        requires
            old(self).pos + chars.spec_utf8_len() <= usize::MAX,
        ensures
            final(self).pos == old(self).pos + chars.spec_utf8_len(),
            token == Spanned::new_spec(Span::new_spec(old(self).pos, final(self).pos), FlatToken::Whitespace),
    {
        let span = self.consume(chars);
        Spanned::new(span, FlatToken::Whitespace)
    }

    pub fn newline(&mut self) -> (token: Spanned<FlatToken>)
        requires
            old(self).pos + 1 <= usize::MAX,
        ensures
            final(self).pos == old(self).pos + 1,
            token == Spanned::new_spec(Span::new_spec(old(self).pos, final(self).pos), FlatToken::Newline),
    {
        let span = self.consume('\n');
        Spanned::new(span, FlatToken::Newline)
    }

    pub fn word<H: HasLen>(&mut self, chars: H) -> (token: Spanned<FlatToken>)
        requires
            old(self).pos + chars.spec_utf8_len() <= usize::MAX,
        ensures
            final(self).pos == old(self).pos + chars.spec_utf8_len(),
            token == Spanned::new_spec(Span::new_spec(old(self).pos, final(self).pos), FlatToken::Word),
    {
        let span = self.consume(chars);
        Spanned::new(span, FlatToken::Word)
    }

    /// A quoted token: the quote, `chars`, and the quote again.
    pub fn quote<H: HasLen>(&mut self, chars: H, quote: Quote) -> (token: Spanned<FlatToken>)
        requires
            old(self).pos + chars.spec_utf8_len() + 2 <= usize::MAX,
        ensures
            final(self).pos == old(self).pos + chars.spec_utf8_len() + 2,
            token == Spanned::new_spec(
                Span::new_spec(old(self).pos, final(self).pos),
                FlatToken::Quoted(
                    (quote, Span::new_spec((old(self).pos + 1) as usize, (final(self).pos - 1) as usize)),
                ),
            ),
    {
        let start = self.consume(quote.char());
        let inner = self.consume(chars);
        let end = self.consume(quote.char());
        Spanned::new(start.until(end), FlatToken::Quoted((quote, inner)))
    }

    /// A comment: `pre`, the body `chars`, and `post`.
    pub fn comment<H: HasLen, P: HasLen, Q: HasLen>(&mut self, chars: H, delimiters: (P, Q)) -> (token: Spanned<FlatToken>)
        requires
            old(self).pos + delimiters.0.spec_utf8_len() + chars.spec_utf8_len() + delimiters.1.spec_utf8_len()
                <= usize::MAX,
        ensures
            final(self).pos == old(self).pos + delimiters.0.spec_utf8_len() + chars.spec_utf8_len()
                + delimiters.1.spec_utf8_len(),
            token == Spanned::new_spec(
                Span::new_spec(old(self).pos, final(self).pos),
                FlatToken::Comment(
                    Span::new_spec(
                        (old(self).pos + delimiters.0.spec_utf8_len()) as usize,
                        (old(self).pos + delimiters.0.spec_utf8_len() + chars.spec_utf8_len()) as usize,
                    ),
                ),
            ),
    {
        let (pre, post) = delimiters;
        let start = self.consume(pre);
        let body = self.consume(chars);
        let end = self.consume(post);
        Spanned::new(start.until(end), FlatToken::Comment(body))
    }

    /// An opening delimiter, given as `"("`, `"["` or `"{"`.
    pub fn open(&mut self, delimiter: &str) -> (token: Spanned<FlatToken>)
        requires
            delimiter@ == "("@ || delimiter@ == "["@ || delimiter@ == "{"@,
            old(self).pos + 1 <= usize::MAX,
        ensures
            final(self).pos == old(self).pos + 1,
            token.span == Span::new_spec(old(self).pos, final(self).pos),
            delimiter@ == "("@ ==> token.item == FlatToken::Open(Delimiter::Paren),
            delimiter@ == "["@ ==> token.item == FlatToken::Open(Delimiter::Bracket),
            delimiter@ == "{"@ ==> token.item == FlatToken::Open(Delimiter::Brace),
    {
        proof {
            reveal_strlit("(");
            reveal_strlit("[");
            reveal_strlit("{");
        }
        let c = single_char(delimiter).unwrap();
        assert(delimiter@[0] == c);
        assert(c == '(' || c == '[' || c == '{');
        assert(char_width(c) == 1);
        let d = if c == '(' {
            Delimiter::Paren
        } else if c == '[' {
            Delimiter::Bracket
        } else {
            Delimiter::Brace
        };
        let span = self.consume(c);
        Spanned::new(span, FlatToken::Open(d))
    }

    /// A closing delimiter, given as `")"`, `"]"` or `"}"`.
    pub fn close(&mut self, delimiter: &str) -> (token: Spanned<FlatToken>)
        requires
            delimiter@ == ")"@ || delimiter@ == "]"@ || delimiter@ == "}"@,
            old(self).pos + 1 <= usize::MAX,
        ensures
            final(self).pos == old(self).pos + 1,
            token.span == Span::new_spec(old(self).pos, final(self).pos),
            delimiter@ == ")"@ ==> token.item == FlatToken::Close(Delimiter::Paren),
            delimiter@ == "]"@ ==> token.item == FlatToken::Close(Delimiter::Bracket),
            delimiter@ == "}"@ ==> token.item == FlatToken::Close(Delimiter::Brace),
    {
        proof {
            reveal_strlit(")");
            reveal_strlit("]");
            reveal_strlit("}");
        }
        let c = single_char(delimiter).unwrap();
        assert(delimiter@[0] == c);
        assert(c == ')' || c == ']' || c == '}');
        assert(char_width(c) == 1);
        let d = if c == ')' {
            Delimiter::Paren
        } else if c == ']' {
            Delimiter::Bracket
        } else {
            Delimiter::Brace
        };
        let span = self.consume(c);
        Spanned::new(span, FlatToken::Close(d))
    }
}

} // verus!
