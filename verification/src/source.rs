//! Byte offsets, spans and the source text they point into.

use vstd::prelude::*;
use vstd::string::StringSliceAdditionalSpecFns;

verus! {

/// The number of bytes that the UTF-8 encoding of `c` takes.
pub open spec fn char_width(c: char) -> nat {
    if (c as u32) <= 0x7F {
        1
    } else if (c as u32) <= 0x7FF {
        2
    } else if (c as u32) <= 0xFFFF {
        3
    } else {
        4
    }
}

/// The number of bytes that the UTF-8 encoding of `cs` takes.
pub open spec fn chars_width(cs: Seq<char>) -> nat
    decreases cs.len(),
{
    if cs.len() == 0 {
        0
    } else {
        char_width(cs[0]) + chars_width(cs.drop_first())
    }
}

/// The byte length of a UTF-8 encoding is the sum of the widths of its characters.
pub proof fn lemma_encode_utf8_len(cs: Seq<char>)
    ensures
        vstd::utf8::encode_utf8(cs).len() == chars_width(cs),
    decreases cs.len(),
{
    if cs.len() > 0 {
        lemma_encode_utf8_len(cs.drop_first());
        vstd::utf8::char_is_scalar(cs[0]);
    }
}

/// Something whose UTF-8 encoding has a known byte length.
pub trait HasLen {
    spec fn spec_utf8_len(&self) -> nat;

    fn utf8_len(&self) -> (len: usize)
        ensures
            len == self.spec_utf8_len(),
    ;
}

/// The byte width of one character, computed from its scalar value.
pub fn char_utf8_len(c: char) -> (len: usize)
    ensures
        len == char_width(c),
        1 <= len <= 4,
{
    let v = c as u32;
    if v <= 0x7F {
        1
    } else if v <= 0x7FF {
        2
    } else if v <= 0xFFFF {
        3
    } else {
        4
    }
}

impl HasLen for char {
    open spec fn spec_utf8_len(&self) -> nat {
        char_width(*self)
    }

    fn utf8_len(&self) -> (len: usize) {
        char_utf8_len(*self)
    }
}

impl HasLen for &char {
    open spec fn spec_utf8_len(&self) -> nat {
        char_width(**self)
    }

    fn utf8_len(&self) -> (len: usize) {
        char_utf8_len(**self)
    }
}

impl HasLen for &str {
    open spec fn spec_utf8_len(&self) -> nat {
        chars_width((**self)@)
    }

    fn utf8_len(&self) -> (len: usize) {
        proof {
            lemma_encode_utf8_len((**self)@);
        }
        (**self).as_bytes().len()
    }
}

impl HasLen for String {
    open spec fn spec_utf8_len(&self) -> nat {
        chars_width(self@)
    }

    fn utf8_len(&self) -> (len: usize) {
        proof {
            lemma_encode_utf8_len(self@);
        }
        self.as_str().as_bytes().len()
    }
}


/// A byte offset into a source text.
#[derive(Clone, Copy, Debug, PartialEq, Eq, Hash, Structural)]
pub struct Offset {
    pub byte: usize,
}

impl Offset {
    pub fn new(byte: usize) -> (offset: Offset)
        ensures
            offset.byte == byte,
    {
        Offset { byte }
    }

    pub fn byte(self) -> (byte: usize)
        ensures
            byte == self.byte,
    {
        self.byte
    }
}

impl From<usize> for Offset {
    fn from(byte: usize) -> (offset: Offset) {
        Offset { byte }
    }
}

impl vstd::std_specs::convert::FromSpecImpl<usize> for Offset {
    open spec fn obeys_from_spec() -> bool {
        true
    }

    open spec fn from_spec(byte: usize) -> Offset {
        Offset { byte }
    }
}

/// A range of bytes `[start, end)` in a source text.
#[derive(Clone, Copy, Debug, PartialEq, Eq, Hash, Structural)]
pub struct Span {
    pub start: Offset,
    pub end: Offset,
}

impl Span {
    /// The span from byte `start` to byte `end`.
    pub open spec fn new_spec(start: usize, end: usize) -> Span {
        Span { start: Offset { byte: start }, end: Offset { byte: end } }
    }

    pub fn new(start: usize, end: usize) -> (span: Span)
        ensures
            span.start.byte == start,
            span.end.byte == end,
            span == Span::new_spec(start, end),
    {
        Span { start: Offset { byte: start }, end: Offset { byte: end } }
    }

    /// The empty span that marks the end of the input at `offset`.
    #[allow(non_snake_case)]
    pub fn EOF(offset: Offset) -> (span: Span)
        ensures
            span.start == offset,
            span.end == offset,
    {
        Span { start: offset, end: offset }
    }

    /// The span that starts where `self` starts and ends where `other` ends.
    pub fn until(self, other: Span) -> (span: Span)
        ensures
            span.start == self.start,
            span.end == other.end,
    {
        Span { start: self.start, end: other.end }
    }

    pub fn start(self) -> (start: Offset)
        ensures
            start == self.start,
    {
        self.start
    }

    pub fn end(self) -> (end: Offset)
        ensures
            end == self.end,
    {
        self.end
    }

    /// The bytes of `source` that this span covers. Both ends must fall on
    /// character boundaries, as slicing a `str` requires.
    pub fn slice(self, source: &str) -> (text: &str)
        requires
            self.start.byte <= self.end.byte <= source.spec_bytes().len(),
            vstd::utf8::is_char_boundary(source.spec_bytes(), self.start.byte as int),
            vstd::utf8::is_char_boundary(source.spec_bytes(), self.end.byte as int),
        ensures
            text.spec_bytes() == source.spec_bytes().subrange(
                self.start.byte as int,
                self.end.byte as int,
            ),
    {
        proof {
            vstd::utf8::encode_utf8_valid_utf8(source@);
        }
        let (before_end, _) = source.split_at(self.end.byte);
        proof {
            let bytes = source.spec_bytes();
            let prefix = before_end.spec_bytes();
            vstd::utf8::valid_utf8_split(bytes, self.end.byte as int);
            if self.start.byte == self.end.byte {
                vstd::utf8::is_char_boundary_start_end_of_seq(prefix);
            } else {
                vstd::utf8::is_char_boundary_iff_not_is_continuation_byte(bytes, self.start.byte as int);
                vstd::utf8::is_char_boundary_iff_not_is_continuation_byte(prefix, self.start.byte as int);
            }
        }
        let (_, text) = before_end.split_at(self.start.byte);
        assert(text.spec_bytes() =~= source.spec_bytes().subrange(
            self.start.byte as int,
            self.end.byte as int,
        ));
        text
    }
}

/// An item together with the span of source text it came from.
#[derive(Clone, Copy, Debug, PartialEq, Eq, Hash)]
pub struct Spanned<T> {
    pub span: Span,
    pub item: T,
}

impl<T> Spanned<T> {
    pub open spec fn new_spec(span: Span, item: T) -> Spanned<T> {
        Spanned { span, item }
    }

    pub fn new(span: Span, item: T) -> (spanned: Spanned<T>)
        ensures
            spanned.span == span,
            spanned.item == item,
    {
        Spanned { span, item }
    }

    pub fn item(&self) -> (item: &T)
        ensures
            *item == self.item,
    {
        &self.item
    }

    pub fn span(&self) -> (span: Span)
        ensures
            span == self.span,
    {
        self.span
    }

    /// Keeps the span and replaces the item by `mapper(item)`.
    pub fn map<U, F: FnOnce(T) -> U>(self, mapper: F) -> (mapped: Spanned<U>)
        requires
            mapper.requires((self.item,)),
        ensures
            mapped.span == self.span,
            mapper.ensures((self.item,), mapped.item),
    {
        let Spanned { span, item } = self;
        Spanned { span, item: mapper(item) }
    }
}

/// Attaches a span to a value.
pub trait AddSpan: Sized {
    fn spanned(self, span: Span) -> (spanned: Spanned<Self>)
        ensures
            spanned.span == span,
            spanned.item == self,
    {
        Spanned::new(span, self)
    }
}

impl<T: crate::traits::WystData> AddSpan for T {

}

/// A named source text.
#[derive(Clone, Debug, PartialEq, Eq, Hash)]
pub struct Source {
    pub filename: String,
    pub contents: String,
}

impl Source {
    pub fn new(filename: &str, contents: &str) -> (source: Source)
        ensures
            source.filename@ == filename@,
            source.contents@ == contents@,
    {
        Source { filename: filename.to_owned(), contents: contents.to_owned() }
    }

    pub fn contents(&self) -> (contents: &str)
        ensures
            contents@ == self.contents@,
    {
        self.contents.as_str()
    }

    /// The text of `span` in this source.
    pub fn slice(&self, span: Span) -> (text: &str)
        requires
            span.start.byte <= span.end.byte <= vstd::utf8::encode_utf8(self.contents@).len(),
            vstd::utf8::is_char_boundary(vstd::utf8::encode_utf8(self.contents@), span.start.byte as int),
            vstd::utf8::is_char_boundary(vstd::utf8::encode_utf8(self.contents@), span.end.byte as int),
        ensures
            text.spec_bytes() == vstd::utf8::encode_utf8(self.contents@).subrange(
                span.start.byte as int,
                span.end.byte as int,
            ),
    {
        span.slice(self.contents.as_str())
    }
}

} // verus!
