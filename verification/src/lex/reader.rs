//! Reading a sequence of flat tokens into a tree.

use vstd::prelude::*;

use crate::lex::delegate::{DefaultDelegate, QuoteResult, StandardDelegate};
use crate::lex::standard::{lemma_default_lex_covers, spec_lex, FlatToken, LexTop};
use crate::lex::tree::{
    flat_leaves, lemma_tree_read_all_leaves, leaves, spanned_view, tokens_view, tree_leaves, tree_read,
    tree_read_all, tree_start, tree_wf, Leaf, ReaderNext, Token, TokenTree, TokenTreeV, TokenV,
};
use crate::lex::standard::Delimiter;
use crate::source::{chars_width, Source, Span, Spanned};

verus! {

/// Reads a sequence of tokens into a structure: each kind of flat token is
/// handed to its own method, and `next` gives back what is finished.
pub trait Reader {
    /// Whether a group is open, so that `close` can end it.
    spec fn can_close(&self) -> bool;

    /// Whether every group is closed, so that `eof` can end the input.
    spec fn can_end(&self) -> bool;

    /// The next finished token, `Buffer` when more input is needed, or `EOF`.
    fn next(&mut self) -> ReaderNext<Spanned<Token>>;

    fn word(&mut self, source: &Source, span: Span);

    fn whitespace(&mut self, source: &Source, span: Span);

    fn newline(&mut self, source: &Source, span: Span);

    fn comment(&mut self, source: &Source, span: Span, body: Span);

    fn quoted(&mut self, source: &Source, span: Span, quote: QuoteResult);

    fn open(&mut self, source: &Source, span: Span, delimiter: Delimiter);

    fn close(&mut self, source: &Source, span: Span, delimiter: Delimiter)
        requires
            old(self).can_close(),
    ;

    fn eof(&mut self, source: &Source, span: Span)
        requires
            old(self).can_end(),
    ;
}

/// A token tree fed with a sequence of flat tokens.
pub struct ReadTokens<'source> {
    pub reader: TokenTree,
    pub source: &'source Source,
    pub input: Vec<Spanned<FlatToken>>,
    /// The position of the next flat token to read.
    pub position: usize,
}

/// What the next call of `next` gives: the next finished token (or nothing
/// once the tree is finished or the input runs out), the tree after it, and
/// how many flat tokens it reads; `None` where a flat token cannot be read.
pub open spec fn spec_read_next(st: TokenTreeV, input: Seq<Spanned<FlatToken>>) -> Option<
    (Option<Spanned<TokenV>>, TokenTreeV, nat),
>
    decreases input.len(),
{
    if st.finished.len() > 0 {
        Some((Some(st.finished[0]), TokenTreeV { finished: st.finished.drop_first(), ..st }, 0))
    } else if st.done || input.len() == 0 {
        Some((None, st, 0))
    } else {
        match tree_read(st, input[0]) {
            None => None,
            Some(next) => match spec_read_next(next, input.drop_first()) {
                None => None,
                Some((token, after, n)) => Some((token, after, n + 1)),
            },
        }
    }
}

impl<'source> ReadTokens<'source> {
    pub fn new(reader: TokenTree, tokens: Vec<Spanned<FlatToken>>, source: &'source Source) -> (read: ReadTokens<'source>)
        ensures
            read.reader@ == reader@,
            read.input@ == tokens@,
    {
        ReadTokens { reader, input: tokens, source, position: 0 }
    }

    /// The next finished token of the tree, reading flat tokens as needed.
    pub fn next(&mut self) -> (token: Option<Spanned<Token>>)
        requires
            old(self).position <= old(self).input@.len(),
            spec_read_next(old(self).reader@, old(self).input@.skip(old(self).position as int)) is Some,
        ensures
            ({
                let (t, after, n) = spec_read_next(
                    old(self).reader@,
                    old(self).input@.skip(old(self).position as int),
                ).unwrap();
                &&& match token {
                    Some(tok) => t == Some(spanned_view(tok)),
                    None => t is None,
                }
                &&& final(self).reader@ == after
                &&& final(self).position == old(self).position + n
                &&& final(self).input == old(self).input
            }),
    {
        let ghost expected = spec_read_next(self.reader@, self.input@.skip(self.position as int)).unwrap();
        let ghost start = self.position;
        loop
            invariant
                start <= self.position <= self.input@.len(),
                self.input == old(self).input,
                spec_read_next(self.reader@, self.input@.skip(self.position as int)) == Some(
                    (expected.0, expected.1, (expected.2 - (self.position - start)) as nat),
                ),
                expected.2 >= self.position - start,
                expected == spec_read_next(old(self).reader@, old(self).input@.skip(start as int)).unwrap(),
                start == old(self).position,
            decreases self.input@.len() - self.position,
        {
            match self.reader.next() {
                ReaderNext::Token(token) => {
                    return Some(token);
                },
                ReaderNext::EOF => {
                    return None;
                },
                ReaderNext::Buffer => {},
            }
            if self.position >= self.input.len() {
                return None;
            }
            let token = self.input[self.position];
            assert(self.input@.skip(self.position as int)[0] == token);
            assert(self.input@.skip(self.position as int).drop_first() =~= self.input@.skip(self.position + 1));
            self.process_token(token);
            self.position = self.position + 1;
        }
    }

    fn process_token(&mut self, token: Spanned<FlatToken>)
        requires
            tree_read(old(self).reader@, token) is Some,
        ensures
            tree_read(old(self).reader@, token) == Some(final(self).reader@),
            final(self).input == old(self).input,
            final(self).source == old(self).source,
            final(self).position == old(self).position,
    {
        let span = token.span();
        let source = self.source;
        let reader = &mut self.reader;
        match token.item {
            FlatToken::Error => {},
            FlatToken::Word => reader.word(source, span),
            FlatToken::Whitespace => reader.whitespace(source, span),
            FlatToken::Newline => reader.newline(source, span),
            FlatToken::Comment(body) => reader.comment(source, span, body),
            FlatToken::Quoted((quote, inner)) => reader.quoted(source, span, QuoteResult::new(quote, inner)),
            FlatToken::Open(d) => reader.open(source, span, d),
            FlatToken::Close(d) => reader.close(source, span, d),
            FlatToken::EOF => reader.eof(source, span),
        }
    }

    /// Reads the input into the tree and returns the tree's top-level tokens.
    pub fn collect_tokens(self) -> (tokens: Vec<Spanned<Token>>)
        requires
            tree_read_all(self.reader@, self.input@) is Some,
        ensures
            tokens_view(tokens@) == tree_read_all(self.reader@, self.input@).unwrap().finished,
    {
        let ghost result = tree_read_all(self.reader@, self.input@).unwrap();
        let mut read = self;
        let mut i: usize = 0;
        assert(read.input@.skip(0) =~= read.input@);
        while i < read.input.len() && !read.reader.done
            invariant
                i <= read.input@.len(),
                tree_read_all(read.reader@, read.input@.skip(i as int)) == Some(result),
            decreases read.input@.len() - i,
        {
            let token = read.input[i];
            assert(read.input@.skip(i as int)[0] == token);
            assert(read.input@.skip(i as int).drop_first() =~= read.input@.skip(i + 1));
            read.process_token(token);
            i = i + 1;
        }
        read.reader.finished_tokens
    }
}

impl<S: StandardDelegate> LexTop<S> {
    /// Reads the tokens of this lexer into a tree.
    pub fn read(self, source: &Source) -> (tokens: Vec<Spanned<Token>>)
        requires
            self.wf(),
            self.remaining() is Some,
            tree_read_all(tree_start(), self.remaining().unwrap()) is Some,
        ensures
            tokens_view(tokens@) == tree_read_all(tree_start(), self.remaining().unwrap()).unwrap().finished,
    {
        let flat = self.collect_tokens();
        ReadTokens::new(TokenTree::new(), flat, source).collect_tokens()
    }
}

/// The tree of a source text, read with the delegate `S`.
pub open spec fn spec_read_source<S: StandardDelegate>(source: Seq<char>) -> Option<TokenTreeV> {
    match spec_lex::<S>(source) {
        None => None,
        Some(flat) => tree_read_all(tree_start(), flat),
    }
}

impl FlatToken {
    /// Lexes `source` and reads its tokens into a tree.
    pub fn read_source<S: StandardDelegate>(source: &Source) -> (tokens: Vec<Spanned<Token>>)
        requires
            spec_read_source::<S>(source.contents@) is Some,
        ensures
            tokens_view(tokens@) == spec_read_source::<S>(source.contents@).unwrap().finished,
    {
        let lexed = FlatToken::lex_source::<S>(source.contents());
        lexed.read(source)
    }
}

/// Reading a source with the default delegate keeps every token: the
/// leaves of the tree, in order, are what the flat tokens become, only the
/// delimiters having turned into groups.
pub proof fn lemma_default_read_keeps_leaves(cs: Seq<char>)
    requires
        chars_width(cs) <= usize::MAX,
        spec_read_source::<DefaultDelegate>(cs) is Some,
    ensures
        leaves(spec_read_source::<DefaultDelegate>(cs).unwrap().finished) == flat_leaves(
            spec_lex::<DefaultDelegate>(cs).unwrap(),
        ),
{
    let flat = spec_lex::<DefaultDelegate>(cs).unwrap();
    lemma_default_lex_covers(cs);
    assert(tree_wf(tree_start()));
    assert(leaves(Seq::<Spanned<TokenV>>::empty()) == Seq::<Leaf>::empty());
    assert(tree_leaves(tree_start()) =~= Seq::<Leaf>::empty());
    lemma_tree_read_all_leaves(tree_start(), flat);
    lemma_tree_read_all_ends(tree_start(), flat);
    let st = spec_read_source::<DefaultDelegate>(cs).unwrap();
    assert(tree_leaves(st) =~= leaves(st.finished));
    assert(Seq::<Leaf>::empty() + flat_leaves(flat) =~= flat_leaves(flat));
}

/// Reading flat tokens that end with `EOF` ends with the tree finished and no
/// group open.
pub proof fn lemma_tree_read_all_ends(st: TokenTreeV, tokens: Seq<Spanned<FlatToken>>)
    requires
        !st.done,
        tokens.len() > 0,
        tokens.last().item is EOF,
        forall|i: int| 0 <= i < tokens.len() - 1 ==> !((#[trigger] tokens[i]).item is EOF),
        tree_read_all(st, tokens) is Some,
    ensures
        tree_read_all(st, tokens).unwrap().done,
        tree_read_all(st, tokens).unwrap().current is None,
        tree_read_all(st, tokens).unwrap().stack.len() == 0,
    decreases tokens.len(),
{
    let next = tree_read(st, tokens[0]).unwrap();
    let rest = tokens.drop_first();
    if tokens.len() == 1 {
        assert(tokens[0].item is EOF);
        assert(rest.len() == 0);
    } else {
        assert(!(tokens[0].item is EOF));
        assert(rest.last() == tokens.last());
        assert forall|i: int| 0 <= i < rest.len() - 1 implies !((#[trigger] rest[i]).item is EOF) by {
            assert(rest[i] == tokens[i + 1]);
        }
        lemma_tree_read_all_ends(next, rest);
    }
}

} // verus!
