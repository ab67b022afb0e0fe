//! Character classes of the lexer, and byte offsets of character positions.

use vstd::prelude::*;
use vstd::string::StrSliceExecFns;

use crate::source::{char_width, chars_width};

verus! {

/// Unicode's `White_Space` characters.
pub open spec fn is_white_space(c: char) -> bool {
    let v = c as u32;
    ||| 0x09 <= v <= 0x0D
    ||| v == 0x20
    ||| v == 0x85
    ||| v == 0xA0
    ||| v == 0x1680
    ||| 0x2000 <= v <= 0x200A
    ||| v == 0x2028
    ||| v == 0x2029
    ||| v == 0x202F
    ||| v == 0x205F
    ||| v == 0x3000
}

pub open spec fn is_quote_char(c: char) -> bool {
    c == '"' || c == '\'' || c == '`'
}

pub open spec fn is_open_char(c: char) -> bool {
    c == '(' || c == '[' || c == '{'
}

pub open spec fn is_close_char(c: char) -> bool {
    c == ')' || c == ']' || c == '}'
}

/// The runs of characters that the lexer reads as one token.
#[derive(Clone, Copy, Debug, PartialEq, Eq, Hash, Structural)]
pub enum RunKind {
    /// White space other than a newline.
    Space,
    /// The characters after the first of a word: anything but quotes, white
    /// space and opening delimiters.
    Word,
    /// The characters after the first of the contents of a quoted token:
    /// anything but white space and opening delimiters.
    Contents,
}

/// Whether `c` continues a run of kind `kind`.
pub open spec fn in_run(kind: RunKind, c: char) -> bool {
    match kind {
        RunKind::Space => is_white_space(c) && c != '\n',
        RunKind::Word => !is_quote_char(c) && !is_white_space(c) && !is_open_char(c),
        RunKind::Contents => !is_white_space(c) && !is_open_char(c),
    }
}

/// The position where the run of kind `kind` that continues at `i` ends.
pub open spec fn run_end(cs: Seq<char>, i: int, kind: RunKind) -> int
    decreases cs.len() - i,
{
    if 0 <= i < cs.len() && in_run(kind, cs[i]) {
        run_end(cs, i + 1, kind)
    } else {
        i
    }
}

/// The byte offset of character position `i`.
pub open spec fn byte_of(cs: Seq<char>, i: int) -> int {
    chars_width(cs.take(i)) as int
}

pub proof fn lemma_chars_width_push(s: Seq<char>, c: char)
    ensures
        chars_width(s.push(c)) == chars_width(s) + char_width(c),
    decreases s.len(),
{
    let t = s.push(c);
    if s.len() > 0 {
        assert(t.drop_first() =~= s.drop_first().push(c));
        lemma_chars_width_push(s.drop_first(), c);
        assert(t[0] == s[0]);
        assert(chars_width(t) == char_width(t[0]) + chars_width(t.drop_first()));
        assert(chars_width(s) == char_width(s[0]) + chars_width(s.drop_first()));
    } else {
        assert(t.drop_first() =~= Seq::<char>::empty());
        assert(chars_width(Seq::<char>::empty()) == 0);
        assert(chars_width(t) == char_width(t[0]) + chars_width(t.drop_first()));
    }
}

/// Moving one character forward moves the byte offset by its width.
pub proof fn lemma_byte_of_step(cs: Seq<char>, i: int)
    requires
        0 <= i < cs.len(),
    ensures
        byte_of(cs, i + 1) == byte_of(cs, i) + char_width(cs[i]),
{
    assert(cs.take(i + 1) =~= cs.take(i).push(cs[i]));
    lemma_chars_width_push(cs.take(i), cs[i]);
}

/// Byte offsets grow with the position.
pub proof fn lemma_byte_of_mono(cs: Seq<char>, i: int, j: int)
    requires
        0 <= i <= j <= cs.len(),
    ensures
        0 <= byte_of(cs, i) <= byte_of(cs, j),
        byte_of(cs, j) - byte_of(cs, i) >= j - i,
    decreases j - i,
{
    if i < j {
        lemma_byte_of_step(cs, j - 1);
        lemma_byte_of_mono(cs, i, j - 1);
    }
}

/// Byte offsets grow with the position and end at the total width.
pub proof fn lemma_byte_of_bounds(cs: Seq<char>, i: int, j: int)
    requires
        0 <= i <= j <= cs.len(),
    ensures
        0 <= byte_of(cs, i) <= byte_of(cs, j) <= chars_width(cs),
        i < j ==> byte_of(cs, i) < byte_of(cs, j),
        cs.len() <= chars_width(cs),
{
    lemma_byte_of_mono(cs, 0, cs.len() as int);
    lemma_byte_of_mono(cs, i, j);
    lemma_byte_of_mono(cs, j, cs.len() as int);
    assert(cs.take(cs.len() as int) =~= cs);
}

pub proof fn lemma_run_end_bounds(cs: Seq<char>, i: int, kind: RunKind)
    requires
        0 <= i <= cs.len(),
    ensures
        i <= run_end(cs, i, kind) <= cs.len(),
        run_end(cs, i, kind) < cs.len() ==> !in_run(kind, cs[run_end(cs, i, kind)]),
        forall|k: int| i <= k < run_end(cs, i, kind) ==> in_run(kind, #[trigger] cs[k]),
    decreases cs.len() - i,
{
    if i < cs.len() && in_run(kind, cs[i]) {
        lemma_run_end_bounds(cs, i + 1, kind);
    }
}

pub fn is_white_space_char(c: char) -> (b: bool)
    ensures
        b == is_white_space(c),
{
    let v = c as u32;
    (0x09 <= v && v <= 0x0D) || v == 0x20 || v == 0x85 || v == 0xA0 || v == 0x1680 || (0x2000 <= v
        && v <= 0x200A) || v == 0x2028 || v == 0x2029 || v == 0x202F || v == 0x205F || v == 0x3000
}

pub fn is_quote(c: char) -> (b: bool)
    ensures
        b == is_quote_char(c),
{
    c == '"' || c == '\'' || c == '`'
}

pub fn is_open(c: char) -> (b: bool)
    ensures
        b == is_open_char(c),
{
    c == '(' || c == '[' || c == '{'
}

pub fn is_close(c: char) -> (b: bool)
    ensures
        b == is_close_char(c),
{
    c == ')' || c == ']' || c == '}'
}

/// Whether `c` continues a run of kind `kind`.
pub fn continues_run(kind: RunKind, c: char) -> (b: bool)
    ensures
        b == in_run(kind, c),
{
    match kind {
        RunKind::Space => is_white_space_char(c) && c != '\n',
        RunKind::Word => !is_quote(c) && !is_white_space_char(c) && !is_open(c),
        RunKind::Contents => !is_white_space_char(c) && !is_open(c),
    }
}

/// Finds where the run of kind `kind` that continues at `pos` ends, and the
/// byte offset there.
pub fn scan_run(chars: &Vec<char>, pos: usize, byte: usize, kind: RunKind) -> (end: (usize, usize))
    requires
        pos <= chars@.len(),
        byte == byte_of(chars@, pos as int),
        chars_width(chars@) <= usize::MAX,
    ensures
        end.0 == run_end(chars@, pos as int, kind),
        end.1 == byte_of(chars@, end.0 as int),
{
    let mut i = pos;
    let mut b = byte;
    while i < chars.len() && continues_run(kind, chars[i])
        invariant
            pos <= i <= chars@.len(),
            b == byte_of(chars@, i as int),
            run_end(chars@, pos as int, kind) == run_end(chars@, i as int, kind),
            chars_width(chars@) <= usize::MAX,
        decreases chars@.len() - i,
    {
        proof {
            lemma_byte_of_step(chars@, i as int);
            lemma_byte_of_bounds(chars@, i + 1, chars@.len() as int);
        }
        b = b + crate::source::char_utf8_len(chars[i]);
        i = i + 1;
    }
    (i, b)
}

/// The characters of `s`.
pub fn chars_of(s: &str) -> (cs: Vec<char>)
    ensures
        cs@ == s@,
{
    let n = s.unicode_len();
    let mut cs: Vec<char> = Vec::new();
    let mut i: usize = 0;
    while i < n
        invariant
            n == s@.len(),
            i <= n,
            cs@ == s@.take(i as int),
        decreases n - i,
    {
        cs.push(s.get_char(i));
        i = i + 1;
        assert(cs@ =~= s@.take(i as int));
    }
    assert(s@.take(n as int) =~= s@);
    cs
}

} // verus!
