//! Building the tokens that reading a text gives, piece by piece.

use vstd::prelude::*;

use crate::lex::delegate::QuoteResult;
use crate::lex::standard::{Delimiter, FlatToken, Quote};
use crate::lex::top_builder::single_char;
use crate::lex::tree::{Leaf, Token, TokenV, token_view, tokens_view};
use crate::source::{HasLen, Offset, Span, Spanned, char_width};

verus! {

/// Builds tokens one after the other, each starting where the last one ended.
pub struct TokenBuilder {
    pub pos: usize,
}

impl TokenBuilder {
    pub fn new() -> (builder: TokenBuilder)
        ensures
            builder.pos == 0,
    {
        TokenBuilder { pos: 0 }
    }

    /// The span of the next `chars`.
    pub fn consume<H: HasLen>(&mut self, chars: H) -> (span: Span)
        requires
            old(self).pos + chars.spec_utf8_len() <= usize::MAX,
        ensures
            span == Span::new_spec(old(self).pos, final(self).pos),
            final(self).pos == old(self).pos + chars.spec_utf8_len(),
    {
        let pre = self.pos;
        self.pos = self.pos + chars.utf8_len();
        Span::new(pre, self.pos)
    }

    /// Moves past `token`.
    pub fn consume_token(&mut self, token: &Spanned<Token>)
        ensures
            final(self).pos == token.span.end.byte,
    {
        self.pos = token.span().end().byte();
    }

    pub fn eof(&mut self) -> (token: Spanned<Token>)
        ensures
            token == Spanned::new_spec(Span::new_spec(old(self).pos, old(self).pos), Token::Leaf(Leaf::EOF)),
            final(self).pos == old(self).pos,
    {
        Spanned::new(Span::EOF(Offset::new(self.pos)), Token::Leaf(Leaf::EOF))
    }

    pub fn ws<H: HasLen>(&mut self, chars: H) -> (token: Spanned<Token>)
        requires
            old(self).pos + chars.spec_utf8_len() <= usize::MAX,
        ensures
            final(self).pos == old(self).pos + chars.spec_utf8_len(),
            token == Spanned::new_spec(Span::new_spec(old(self).pos, final(self).pos), Token::Leaf(Leaf::Whitespace)),
    {
        let span = self.consume(chars);
        Spanned::new(span, Token::Leaf(Leaf::Whitespace))
    }

    pub fn newline(&mut self) -> (token: Spanned<Token>)
        requires
            old(self).pos + 1 <= usize::MAX,
        ensures
            final(self).pos == old(self).pos + 1,
            token == Spanned::new_spec(Span::new_spec(old(self).pos, final(self).pos), Token::Leaf(Leaf::Newline)),
    {
        let span = self.consume('\n');
        Spanned::new(span, Token::Leaf(Leaf::Newline))
    }

    pub fn word<H: HasLen>(&mut self, chars: H) -> (token: Spanned<Token>)
        requires
            old(self).pos + chars.spec_utf8_len() <= usize::MAX,
        ensures
            final(self).pos == old(self).pos + chars.spec_utf8_len(),
            token == Spanned::new_spec(Span::new_spec(old(self).pos, final(self).pos), Token::Leaf(Leaf::Word)),
    {
        let span = self.consume(chars);
        Spanned::new(span, Token::Leaf(Leaf::Word))
    }

    /// A quoted token: the quote, `chars`, and the quote again.
    pub fn quote<H: HasLen>(&mut self, quote: Quote, chars: H) -> (token: Spanned<Token>)
        requires
            old(self).pos + chars.spec_utf8_len() + 2 <= usize::MAX,
        ensures
            final(self).pos == old(self).pos + chars.spec_utf8_len() + 2,
            token == Spanned::new_spec(
                Span::new_spec(old(self).pos, final(self).pos),
                Token::Leaf(
                    Leaf::Quoted(
                        QuoteResult {
                            quote,
                            inner: Span::new_spec((old(self).pos + 1) as usize, (final(self).pos - 1) as usize),
                        },
                    ),
                ),
            ),
    {
        let outer_start = self.consume(quote.char());
        let inner = self.consume(chars);
        let outer_end = self.consume(quote.char());
        Spanned::new(outer_start.until(outer_end), Token::Leaf(Leaf::Quoted(QuoteResult::new(quote, inner))))
    }

    /// A delimited group: the opening delimiter, the tokens that `contents`
    /// builds, and the closing delimiter after the last of them.
    pub fn delimited<F: FnOnce(&mut Self) -> Vec<Spanned<Token>>>(&mut self, delimiter: Delimiter, contents: F) -> (token: Spanned<Token>)
        requires
            old(self).pos + 1 <= usize::MAX,
            forall|b: &mut Self| #[trigger] contents.requires((b,)),
            forall|b: &mut Self, tokens: Vec<Spanned<Token>>|
                #[trigger] contents.ensures((b,), tokens) ==> (*final(b)).pos < usize::MAX && forall|i: int|
                    0 <= i < tokens@.len() ==> (#[trigger] tokens@[i]).span.end.byte < usize::MAX,
        ensures
            exists|b: &mut Self, tokens: Vec<Spanned<Token>>|
                (*b).pos == old(self).pos + 1 && #[trigger] contents.ensures((b,), tokens) && token_view(token.item)
                    == TokenV::Delimited(delimiter, tokens_view(tokens@)) && token.span.end.byte == (if tokens@.len() > 0 {
                        tokens@.last().span.end.byte + 1
                    } else {
                        (*final(b)).pos + 1
                    }),
            token.span.start.byte == old(self).pos,
            final(self).pos == token.span.end.byte,
    {
        let open = self.consume(delimiter.open_char());
        let ghost before = *self;
        let tokens = contents(self);
        assert(exists|b: &mut Self| *b == before && *final(b) == *self && #[trigger] contents.ensures((b,), tokens));
        let ghost b = choose|b: &mut Self| *b == before && *final(b) == *self && #[trigger] contents.ensures((b,), tokens);
        let ghost after_contents = self.pos;
        let mut i: usize = 0;
        while i < tokens.len()
            invariant
                i <= tokens@.len(),
                forall|k: int| 0 <= k < tokens@.len() ==> (#[trigger] tokens@[k]).span.end.byte < usize::MAX,
                i > 0 ==> self.pos == tokens@[i - 1].span.end.byte,
                i == 0 ==> self.pos == after_contents,
                after_contents < usize::MAX,
            decreases tokens@.len() - i,
        {
            self.consume_token(&tokens[i]);
            i = i + 1;
        }
        let close = self.consume(delimiter.close_char());
        Spanned::new(open.until(close), Token::delimited(delimiter, tokens))
    }

    /// An opening delimiter, given as `"("`, `"["` or `"{"`.
    pub fn open(&mut self, delimiter: &str) -> (token: Spanned<FlatToken>)
        requires
            delimiter@ == "("@ || delimiter@ == "["@ || delimiter@ == "{"@,
            old(self).pos + 1 <= usize::MAX,
        ensures
            final(self).pos == old(self).pos + 1,
            token.span == Span::new_spec(old(self).pos, final(self).pos),
            delimiter@ == "("@ ==> token.item == FlatToken::Open(Delimiter::Paren),
            delimiter@ == "["@ ==> token.item == FlatToken::Open(Delimiter::Bracket),
            delimiter@ == "{"@ ==> token.item == FlatToken::Open(Delimiter::Brace),
    {
        proof {
            reveal_strlit("(");
            reveal_strlit("[");
            reveal_strlit("{");
        }
        let c = single_char(delimiter).unwrap();
        assert(delimiter@[0] == c);
        assert(c == '(' || c == '[' || c == '{');
        assert(char_width(c) == 1);
        let d = if c == '(' {
            Delimiter::Paren
        } else if c == '[' {
            Delimiter::Bracket
        } else {
            Delimiter::Brace
        };
        let span = self.consume(c);
        Spanned::new(span, FlatToken::Open(d))
    }

    /// A closing delimiter, given as `")"`, `"]"` or `"}"`.
    pub fn close(&mut self, delimiter: &str) -> (token: Spanned<FlatToken>)
        requires
            delimiter@ == ")"@ || delimiter@ == "]"@ || delimiter@ == "}"@,
            old(self).pos + 1 <= usize::MAX,
        ensures
            final(self).pos == old(self).pos + 1,
            token.span == Span::new_spec(old(self).pos, final(self).pos),
            delimiter@ == ")"@ ==> token.item == FlatToken::Close(Delimiter::Paren),
            delimiter@ == "]"@ ==> token.item == FlatToken::Close(Delimiter::Bracket),
            delimiter@ == "}"@ ==> token.item == FlatToken::Close(Delimiter::Brace),
    {
        proof {
            reveal_strlit(")");
            reveal_strlit("]");
            reveal_strlit("}");
        }
        let c = single_char(delimiter).unwrap();
        assert(delimiter@[0] == c);
        assert(c == ')' || c == ']' || c == '}');
        assert(char_width(c) == 1);
        let d = if c == ')' {
            Delimiter::Paren
        } else if c == ']' {
            Delimiter::Bracket
        } else {
            Delimiter::Brace
        };
        let span = self.consume(c);
        Spanned::new(span, FlatToken::Close(d))
    }
}

} // verus!
