//! Reading flat tokens into a tree of delimited groups.

use vstd::prelude::*;

use crate::lex::delegate::QuoteResult;
use crate::lex::reader::Reader;
use crate::lex::standard::{Delimiter, FlatToken};
use crate::source::{Offset, Source, Span, Spanned};

verus! {

/// A token that is not a delimited group.
#[derive(Clone, Copy, Debug, PartialEq, Eq, Hash, Structural)]
pub enum Leaf {
    Error,
    EOF,
    Word,
    Quoted(QuoteResult),
    Comment(Span),
    Whitespace,
    Newline,
}

/// A delimited group and the tokens inside it.
#[derive(Debug, PartialEq, Eq, Hash)]
pub struct Delimited {
    pub delimiter: Delimiter,
    pub children: Vec<Spanned<Token>>,
}

/// A token of the tree.
#[derive(Debug, PartialEq, Eq, Hash)]
pub enum Token {
    Leaf(Leaf),
    Delimited(Delimited),
}

/// The view of a token of the tree.
pub enum TokenV {
    Leaf(Leaf),
    Delimited(Delimiter, Seq<Spanned<TokenV>>),
}

pub open spec fn token_view(t: Token) -> TokenV
    decreases t, 0nat,
{
    match t {
        Token::Leaf(leaf) => TokenV::Leaf(leaf),
        Token::Delimited(d) => TokenV::Delimited(d.delimiter, tokens_view(d.children@)),
    }
}

pub open spec fn tokens_view(s: Seq<Spanned<Token>>) -> Seq<Spanned<TokenV>>
    decreases s, 1nat,
{
    if s.len() == 0 {
        Seq::empty()
    } else {
        tokens_view(s.drop_last()).push(Spanned { span: s.last().span, item: token_view(s.last().item) })
    }
}

pub proof fn lemma_tokens_view_push(s: Seq<Spanned<Token>>, t: Spanned<Token>)
    ensures
        tokens_view(s.push(t)) == tokens_view(s).push(Spanned { span: t.span, item: token_view(t.item) }),
{
    assert(s.push(t).drop_last() =~= s);
}

/// The view of a spanned token of the tree.
pub open spec fn spanned_view(t: Spanned<Token>) -> Spanned<TokenV> {
    Spanned { span: t.span, item: token_view(t.item) }
}

impl Token {
    /// A delimited group of `tokens`.
    pub fn delimited(delimiter: Delimiter, tokens: Vec<Spanned<Token>>) -> (token: Token)
        ensures
            token_view(token) == TokenV::Delimited(delimiter, tokens_view(tokens@)),
    {
        Token::Delimited(Delimited { delimiter, children: tokens })
    }
}

impl Delimited {
    pub fn push(&mut self, token: Spanned<Token>)
        ensures
            final(self).delimiter == old(self).delimiter,
            tokens_view(final(self).children@) == tokens_view(old(self).children@).push(spanned_view(token)),
    {
        proof {
            lemma_tokens_view_push(self.children@, token);
        }
        self.children.push(token);
    }
}

/// The tokens of a whole source text.
#[derive(Debug, PartialEq, Eq, Hash)]
pub struct Program {
    pub children: Vec<Spanned<Token>>,
}

/// An open group: its delimiter, the tokens in it so far, and where it
/// opened.
pub type OpenGroupV = (Delimiter, Seq<Spanned<TokenV>>, Offset);

/// The view of a token tree being read.
pub struct TokenTreeV {
    /// The enclosing open groups, innermost last.
    pub stack: Seq<OpenGroupV>,
    /// The innermost open group.
    pub current: Option<OpenGroupV>,
    /// The finished top-level tokens.
    pub finished: Seq<Spanned<TokenV>>,
    /// Whether the end of the input was read.
    pub done: bool,
}

/// Adds a token to the innermost open group, or to the finished tokens.
pub open spec fn tree_push(st: TokenTreeV, token: Spanned<TokenV>) -> TokenTreeV {
    match st.current {
        Some((d, children, start)) => TokenTreeV { current: Some((d, children.push(token), start)), ..st },
        None => TokenTreeV { finished: st.finished.push(token), ..st },
    }
}

/// Opens a group.
pub open spec fn tree_open(st: TokenTreeV, span: Span, delimiter: Delimiter) -> TokenTreeV {
    TokenTreeV {
        stack: match st.current {
            Some(parent) => st.stack.push(parent),
            None => st.stack,
        },
        current: Some((delimiter, Seq::empty(), span.start)),
        ..st
    }
}

/// Closes the innermost group; `None` where no group is open.
pub open spec fn tree_close(st: TokenTreeV, span: Span) -> Option<TokenTreeV> {
    match st.current {
        None => None,
        Some((d, children, start)) => {
            let token = Spanned {
                span: Span { start, end: span.end },
                item: TokenV::Delimited(d, children),
            };
            if st.stack.len() > 0 {
                let (td, tchildren, tstart) = st.stack.last();
                Some(
                    TokenTreeV {
                        stack: st.stack.drop_last(),
                        current: Some((td, tchildren.push(token), tstart)),
                        ..st
                    },
                )
            } else {
                Some(TokenTreeV { current: None, finished: st.finished.push(token), ..st })
            }
        },
    }
}

/// Ends the input; `None` where a group is still open.
pub open spec fn tree_eof(st: TokenTreeV, span: Span) -> Option<TokenTreeV> {
    if st.current is Some || st.stack.len() > 0 {
        None
    } else {
        Some(
            TokenTreeV {
                done: true,
                finished: st.finished.push(Spanned { span, item: TokenV::Leaf(Leaf::EOF) }),
                ..st
            },
        )
    }
}

/// Reads one flat token; `None` for an error token, a closing delimiter
/// without an open group, or the end of the input inside a group.
pub open spec fn tree_read(st: TokenTreeV, token: Spanned<FlatToken>) -> Option<TokenTreeV> {
    let span = token.span;
    match token.item {
        FlatToken::Error => None,
        FlatToken::Word => Some(tree_push(st, Spanned { span, item: TokenV::Leaf(Leaf::Word) })),
        FlatToken::Whitespace => Some(tree_push(st, Spanned { span, item: TokenV::Leaf(Leaf::Whitespace) })),
        FlatToken::Newline => Some(tree_push(st, Spanned { span, item: TokenV::Leaf(Leaf::Newline) })),
        FlatToken::Comment(body) => Some(tree_push(st, Spanned { span, item: TokenV::Leaf(Leaf::Comment(body)) })),
        FlatToken::Quoted((quote, inner)) => Some(
            tree_push(
                st,
                Spanned { span, item: TokenV::Leaf(Leaf::Quoted(QuoteResult { quote, inner })) },
            ),
        ),
        FlatToken::Open(d) => Some(tree_open(st, span, d)),
        FlatToken::Close(_) => tree_close(st, span),
        FlatToken::EOF => tree_eof(st, span),
    }
}

/// Reads flat tokens until the input or the tokens end.
pub open spec fn tree_read_all(st: TokenTreeV, tokens: Seq<Spanned<FlatToken>>) -> Option<TokenTreeV>
    decreases tokens.len(),
{
    if tokens.len() == 0 || st.done {
        Some(st)
    } else {
        match tree_read(st, tokens[0]) {
            None => None,
            Some(next) => tree_read_all(next, tokens.drop_first()),
        }
    }
}

/// The empty token tree.
pub open spec fn tree_start() -> TokenTreeV {
    TokenTreeV { stack: Seq::empty(), current: None, finished: Seq::empty(), done: false }
}

/// The view of an open group.
pub open spec fn group_view(g: (Delimited, Offset)) -> OpenGroupV {
    (g.0.delimiter, tokens_view(g.0.children@), g.1)
}

/// What the reader has to give next.
pub enum ReaderNext<T> {
    /// Nothing yet: more input is needed.
    Buffer,
    Token(T),
    /// Nothing more.
    EOF,
}

/// Reads flat tokens into a tree of delimited groups.
pub struct TokenTree {
    pub stack: Vec<(Delimited, Offset)>,
    pub current_parent: Option<(Delimited, Offset)>,
    pub finished_tokens: Vec<Spanned<Token>>,
    pub done: bool,
}

impl View for TokenTree {
    type V = TokenTreeV;

    open spec fn view(&self) -> TokenTreeV {
        TokenTreeV {
            stack: self.stack@.map_values(|g: (Delimited, Offset)| group_view(g)),
            current: match self.current_parent {
                Some(g) => Some(group_view(g)),
                None => None,
            },
            finished: tokens_view(self.finished_tokens@),
            done: self.done,
        }
    }
}

impl TokenTree {
    pub fn new() -> (tree: TokenTree)
        ensures
            tree@ == tree_start(),
    {
        let tree = TokenTree { stack: Vec::new(), current_parent: None, finished_tokens: Vec::new(), done: false };
        assert(tree@.stack =~= Seq::<OpenGroupV>::empty());
        assert(tree@.finished =~= Seq::<Spanned<TokenV>>::empty());
        tree
    }

    fn push_leaf(&mut self, leaf: Leaf, span: Span)
        ensures
            final(self)@ == tree_push(old(self)@, Spanned { span, item: TokenV::Leaf(leaf) }),
    {
        let token = Spanned::new(span, Token::Leaf(leaf));
        match self.current_parent.take() {
            Some((mut parent, start)) => {
                parent.push(token);
                self.current_parent = Some((parent, start));
            },
            None => {
                proof {
                    lemma_tokens_view_push(self.finished_tokens@, token);
                }
                self.finished_tokens.push(token);
            },
        }
    }
}

impl Reader for TokenTree {
    open spec fn can_close(&self) -> bool {
        self.current_parent is Some
    }

    open spec fn can_end(&self) -> bool {
        self.current_parent is None && self.stack@.len() == 0
    }

    /// Takes the next finished token.
    fn next(&mut self) -> (next: ReaderNext<Spanned<Token>>)
        ensures
            final(self).done == old(self).done,
            match next {
                ReaderNext::Token(t) => old(self)@.finished.len() > 0 && spanned_view(t) == old(self)@.finished[0]
                    && final(self)@ == (TokenTreeV { finished: old(self)@.finished.drop_first(), ..old(self)@ }),
                ReaderNext::EOF => old(self)@.finished.len() == 0 && old(self).done && final(self)@ == old(self)@,
                ReaderNext::Buffer => old(self)@.finished.len() == 0 && !old(self).done && final(self)@ == old(self)@,
            },
    {
        proof {
            lemma_tokens_view_len(self.finished_tokens@);
        }
        if self.finished_tokens.len() > 0 {
            let ghost before = self.finished_tokens@;
            let token = self.finished_tokens.remove(0);
            proof {
                lemma_tokens_view_drop_first(before);
                assert(self.finished_tokens@ =~= before.drop_first());
            }
            ReaderNext::Token(token)
        } else if self.done {
            ReaderNext::EOF
        } else {
            ReaderNext::Buffer
        }
    }

    fn word(&mut self, _source: &Source, span: Span)
        ensures
            final(self)@ == tree_push(old(self)@, Spanned { span, item: TokenV::Leaf(Leaf::Word) }),
    {
        self.push_leaf(Leaf::Word, span);
    }

    fn whitespace(&mut self, _source: &Source, span: Span)
        ensures
            final(self)@ == tree_push(old(self)@, Spanned { span, item: TokenV::Leaf(Leaf::Whitespace) }),
    {
        self.push_leaf(Leaf::Whitespace, span);
    }

    fn newline(&mut self, _source: &Source, span: Span)
        ensures
            final(self)@ == tree_push(old(self)@, Spanned { span, item: TokenV::Leaf(Leaf::Newline) }),
    {
        self.push_leaf(Leaf::Newline, span);
    }

    fn comment(&mut self, _source: &Source, span: Span, body: Span)
        ensures
            final(self)@ == tree_push(old(self)@, Spanned { span, item: TokenV::Leaf(Leaf::Comment(body)) }),
    {
        self.push_leaf(Leaf::Comment(body), span);
    }

    fn quoted(&mut self, _source: &Source, span: Span, quote: QuoteResult)
        ensures
            final(self)@ == tree_push(old(self)@, Spanned { span, item: TokenV::Leaf(Leaf::Quoted(quote)) }),
    {
        self.push_leaf(Leaf::Quoted(quote), span);
    }

    fn open(&mut self, _source: &Source, span: Span, delimiter: Delimiter)
        ensures
            final(self)@ == tree_open(old(self)@, span, delimiter),
    {
        if let Some(parent) = self.current_parent.take() {
            self.stack.push(parent);
        }
        self.current_parent = Some((Delimited { delimiter, children: Vec::new() }, span.start()));
        proof {
            assert(self@.stack =~= tree_open(old(self)@, span, delimiter).stack);
            assert(tokens_view(Seq::<Spanned<Token>>::empty()) =~= Seq::<Spanned<TokenV>>::empty());
        }
    }

    fn close(&mut self, _source: &Source, span: Span, _delimiter: Delimiter)
        ensures
            tree_close(old(self)@, span) == Some(final(self)@),
    {
        let (parent, start) = self.current_parent.take().unwrap();
        let token = Spanned::new(Span::new(start.byte, span.end.byte), Token::Delimited(parent));
        match self.stack.pop() {
            Some((mut tail, tail_offset)) => {
                tail.push(token);
                self.current_parent = Some((tail, tail_offset));
                proof {
                    assert(self@.stack =~= old(self)@.stack.drop_last());
                }
            },
            None => {
                proof {
                    lemma_tokens_view_push(self.finished_tokens@, token);
                }
                self.finished_tokens.push(token);
            },
        }
    }

    fn eof(&mut self, _source: &Source, span: Span)
        ensures
            tree_eof(old(self)@, span) == Some(final(self)@),
    {
        self.done = true;
        let token = Spanned::new(span, Token::Leaf(Leaf::EOF));
        proof {
            lemma_tokens_view_push(self.finished_tokens@, token);
        }
        self.finished_tokens.push(token);
    }
}

pub proof fn lemma_tokens_view_len(s: Seq<Spanned<Token>>)
    ensures
        tokens_view(s).len() == s.len(),
        forall|i: int| 0 <= i < s.len() ==> #[trigger] tokens_view(s)[i] == spanned_view(s[i]),
    decreases s.len(),
{
    if s.len() > 0 {
        lemma_tokens_view_len(s.drop_last());
    }
}

pub proof fn lemma_tokens_view_drop_first(s: Seq<Spanned<Token>>)
    requires
        s.len() > 0,
    ensures
        tokens_view(s.drop_first()) == tokens_view(s).drop_first(),
{
    lemma_tokens_view_len(s);
    lemma_tokens_view_len(s.drop_first());
    assert(tokens_view(s.drop_first()) =~= tokens_view(s).drop_first());
}

/// The leaves of a token of the tree, in order.
pub open spec fn token_leaves(t: TokenV) -> Seq<Leaf>
    decreases t, 0nat,
{
    match t {
        TokenV::Leaf(leaf) => seq![leaf],
        TokenV::Delimited(_, children) => leaves(children),
    }
}

/// The leaves of some tokens of the tree, in order.
pub open spec fn leaves(ts: Seq<Spanned<TokenV>>) -> Seq<Leaf>
    decreases ts, 1nat,
{
    if ts.len() == 0 {
        Seq::empty()
    } else {
        leaves(ts.drop_last()) + token_leaves(ts.last().item)
    }
}

/// The leaf that a flat token becomes, if any.
pub open spec fn flat_leaf(token: FlatToken) -> Seq<Leaf> {
    match token {
        FlatToken::Word => seq![Leaf::Word],
        FlatToken::Whitespace => seq![Leaf::Whitespace],
        FlatToken::Newline => seq![Leaf::Newline],
        FlatToken::Comment(body) => seq![Leaf::Comment(body)],
        FlatToken::Quoted((quote, inner)) => seq![Leaf::Quoted(QuoteResult { quote, inner })],
        FlatToken::EOF => seq![Leaf::EOF],
        _ => Seq::empty(),
    }
}

/// The leaves that some flat tokens become, in order.
pub open spec fn flat_leaves(tokens: Seq<Spanned<FlatToken>>) -> Seq<Leaf>
    decreases tokens.len(),
{
    if tokens.len() == 0 {
        Seq::empty()
    } else {
        flat_leaves(tokens.drop_last()) + flat_leaf(tokens.last().item)
    }
}

/// The leaves of the open groups from `i` on, in order.
pub open spec fn stack_leaves(stack: Seq<OpenGroupV>) -> Seq<Leaf>
    decreases stack.len(),
{
    if stack.len() == 0 {
        Seq::empty()
    } else {
        stack_leaves(stack.drop_last()) + leaves(stack.last().1)
    }
}

/// The leaves of a tree being read, in order: the finished tokens, then the
/// open groups from the outermost in.
pub open spec fn tree_leaves(st: TokenTreeV) -> Seq<Leaf> {
    leaves(st.finished) + stack_leaves(st.stack) + match st.current {
        Some((_, children, _)) => leaves(children),
        None => Seq::empty(),
    }
}

/// A group is open whenever an enclosing one is.
pub open spec fn tree_wf(st: TokenTreeV) -> bool {
    st.current is None ==> st.stack.len() == 0
}

pub proof fn lemma_leaves_push(ts: Seq<Spanned<TokenV>>, t: Spanned<TokenV>)
    ensures
        leaves(ts.push(t)) == leaves(ts) + token_leaves(t.item),
{
    assert(ts.push(t).drop_last() =~= ts);
}

pub proof fn lemma_flat_leaves_first(tokens: Seq<Spanned<FlatToken>>)
    requires
        tokens.len() > 0,
    ensures
        flat_leaves(tokens) == flat_leaf(tokens[0].item) + flat_leaves(tokens.drop_first()),
    decreases tokens.len(),
{
    if tokens.len() == 1 {
        assert(tokens.drop_first() =~= Seq::<Spanned<FlatToken>>::empty());
        assert(tokens.drop_last() =~= Seq::<Spanned<FlatToken>>::empty());
        assert(flat_leaf(tokens[0].item) + Seq::<Leaf>::empty() =~= flat_leaf(tokens[0].item));
        assert(Seq::<Leaf>::empty() + flat_leaf(tokens[0].item) =~= flat_leaf(tokens[0].item));
    } else {
        lemma_flat_leaves_first(tokens.drop_last());
        assert(tokens.drop_last().drop_first() =~= tokens.drop_first().drop_last());
        assert(tokens.drop_first().last() == tokens.last());
        assert(tokens.drop_last()[0] == tokens[0]);
        let a = flat_leaf(tokens[0].item);
        let b = flat_leaves(tokens.drop_first().drop_last());
        let c = flat_leaf(tokens.last().item);
        assert(a + b + c =~= a + (b + c));
    }
}

/// Reading one flat token adds its leaf after the leaves read so far.
pub proof fn lemma_tree_read_leaves(st: TokenTreeV, token: Spanned<FlatToken>)
    requires
        tree_wf(st),
        tree_read(st, token) is Some,
    ensures
        tree_wf(tree_read(st, token).unwrap()),
        tree_leaves(tree_read(st, token).unwrap()) == tree_leaves(st) + flat_leaf(token.item),
{
    let st2 = tree_read(st, token).unwrap();
    let f = leaves(st.finished);
    let sl = stack_leaves(st.stack);
    match token.item {
        FlatToken::Open(d) => {
            match st.current {
                Some(parent) => {
                    assert(st.stack.push(parent).drop_last() =~= st.stack);
                    assert(leaves(Seq::<Spanned<TokenV>>::empty()) == Seq::<Leaf>::empty());
                    assert(tree_leaves(st2) =~= tree_leaves(st) + flat_leaf(token.item));
                },
                None => {
                    assert(tree_leaves(st2) =~= tree_leaves(st) + flat_leaf(token.item));
                },
            }
        },
        FlatToken::Close(_) => {
            let (d, children, start) = st.current.unwrap();
            let t = Spanned { span: Span { start, end: token.span.end }, item: TokenV::Delimited(d, children) };
            if st.stack.len() > 0 {
                let (td, tchildren, tstart) = st.stack.last();
                lemma_leaves_push(tchildren, t);
                let rest = st.stack.drop_last();
                assert(sl == stack_leaves(rest) + leaves(tchildren));
                assert(tree_leaves(st2) =~= tree_leaves(st) + flat_leaf(token.item));
            } else {
                lemma_leaves_push(st.finished, t);
                assert(tree_leaves(st2) =~= tree_leaves(st) + flat_leaf(token.item));
            }
        },
        FlatToken::EOF => {
            let t = Spanned { span: token.span, item: TokenV::Leaf(Leaf::EOF) };
            lemma_leaves_push(st.finished, t);
            assert(tree_leaves(st2) =~= tree_leaves(st) + flat_leaf(token.item));
        },
        FlatToken::Error => {},
        _ => {
            let leaf = match token.item {
                FlatToken::Word => Leaf::Word,
                FlatToken::Whitespace => Leaf::Whitespace,
                FlatToken::Newline => Leaf::Newline,
                FlatToken::Comment(body) => Leaf::Comment(body),
                FlatToken::Quoted((quote, inner)) => Leaf::Quoted(QuoteResult { quote, inner }),
                _ => Leaf::Error,
            };
            let t = Spanned { span: token.span, item: TokenV::Leaf(leaf) };
            match st.current {
                Some((d, children, start)) => {
                    lemma_leaves_push(children, t);
                    assert(tree_leaves(st2) =~= tree_leaves(st) + flat_leaf(token.item));
                },
                None => {
                    lemma_leaves_push(st.finished, t);
                    assert(tree_leaves(st2) =~= tree_leaves(st) + flat_leaf(token.item));
                },
            }
        },
    }
}

/// Reading keeps every leaf, in order: reading flat tokens that end with the
/// only `EOF` among them adds their leaves after the leaves read so far.
pub proof fn lemma_tree_read_all_leaves(st: TokenTreeV, tokens: Seq<Spanned<FlatToken>>)
    requires
        tree_wf(st),
        !st.done,
        forall|i: int| 0 <= i < tokens.len() - 1 ==> !((#[trigger] tokens[i]).item is EOF),
        tree_read_all(st, tokens) is Some,
    ensures
        tree_leaves(tree_read_all(st, tokens).unwrap()) == tree_leaves(st) + flat_leaves(tokens),
    decreases tokens.len(),
{
    if tokens.len() == 0 {
        assert(tree_leaves(st) + flat_leaves(tokens) =~= tree_leaves(st));
    } else {
        let next = tree_read(st, tokens[0]).unwrap();
        lemma_tree_read_leaves(st, tokens[0]);
        lemma_flat_leaves_first(tokens);
        let rest = tokens.drop_first();
        if tokens.len() == 1 {
            assert(rest =~= Seq::<Spanned<FlatToken>>::empty());
            assert(tree_leaves(next) + flat_leaves(rest) =~= tree_leaves(next));
            assert(tree_leaves(st) + flat_leaf(tokens[0].item) + Seq::<Leaf>::empty() =~= tree_leaves(st) + flat_leaf(tokens[0].item));
        } else {
            assert(!(tokens[0].item is EOF));
            assert(!next.done);
            assert forall|i: int| 0 <= i < rest.len() - 1 implies !((#[trigger] rest[i]).item is EOF) by {
                assert(rest[i] == tokens[i + 1]);
            }
            lemma_tree_read_all_leaves(next, rest);
            assert(tree_leaves(st) + flat_leaf(tokens[0].item) + flat_leaves(rest) =~= tree_leaves(st) + (flat_leaf(tokens[0].item) + flat_leaves(rest)));
        }
    }
}

} // verus!
