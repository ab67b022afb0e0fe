//! Interned text: each distinct string is stored once and referred to by key.

use lasso::Key;
use lasso::{Rodeo, RodeoResolver, Spur};
use vstd::prelude::*;
use vstd::string::StringSliceAdditionalSpecFns;

use crate::source::{chars_width, lemma_encode_utf8_len};
use crate::style::Style;

verus! {

#[verifier::external_type_specification]
#[verifier::external_body]
#[verifier::reject_recursive_types(K)]
#[verifier::reject_recursive_types(S)]
pub struct ExRodeo<K, S>(Rodeo<K, S>);

#[verifier::external_type_specification]
#[verifier::external_body]
pub struct ExSpur(Spur);

#[verifier::external_type_specification]
#[verifier::external_body]
#[verifier::reject_recursive_types(K)]
pub struct ExRodeoResolver<K>(RodeoResolver<K>);

/// The strings interned in a `Rodeo`, in the order of their keys.
pub uninterp spec fn rodeo_strings(rodeo: Rodeo) -> Seq<Seq<char>>;

/// The strings held by a `RodeoResolver`, in the order of their keys.
pub uninterp spec fn resolver_strings(resolver: RodeoResolver) -> Seq<Seq<char>>;

/// The most strings that an interner keyed by `Spur` can hold: a `Spur`
/// stores its position plus one in a non-zero `u32`.
pub open spec fn max_interned() -> nat {
    u32::MAX as nat
}

/// `lasso::Rodeo::new`: an interner that holds no string.
#[verifier::external_body]
fn rodeo_new() -> (rodeo: Rodeo)
    ensures
        rodeo_strings(rodeo) == Seq::<Seq<char>>::empty(),
{
    Rodeo::new()
}

/// `lasso::Rodeo::get_or_intern`, with the key converted by `Key::into_usize`.
/// A string that is already interned keeps its key; a new string is appended
/// and its key is its position. The key space of `Spur` must not be exhausted;
/// running out of memory while storing the string is not covered.
#[verifier::external_body]
fn rodeo_get_or_intern(rodeo: &mut Rodeo, text: &str) -> (key: usize)
    requires
        rodeo_strings(*old(rodeo)).len() < max_interned(),
    ensures
        rodeo_strings(*final(rodeo)) == (if rodeo_strings(*old(rodeo)).contains(text@) {
            rodeo_strings(*old(rodeo))
        } else {
            rodeo_strings(*old(rodeo)).push(text@)
        }),
        key < rodeo_strings(*final(rodeo)).len(),
        rodeo_strings(*final(rodeo))[key as int] == text@,
{
    rodeo.get_or_intern(text).into_usize()
}

/// `lasso::Rodeo::resolve` for the key at position `key`: the string stored there.
#[verifier::external_body]
fn rodeo_resolve(rodeo: &Rodeo, key: usize) -> (text: &str)
    requires
        key < rodeo_strings(*rodeo).len(),
        key < max_interned(),
    ensures
        text@ == rodeo_strings(*rodeo)[key as int],
{
    rodeo.resolve(&Spur::try_from_usize(key).unwrap())
}

/// `lasso::Rodeo::into_resolver`: a read-only interner with the same strings.
#[verifier::external_body]
fn rodeo_into_resolver(rodeo: Rodeo) -> (resolver: RodeoResolver)
    ensures
        resolver_strings(resolver) == rodeo_strings(rodeo),
{
    rodeo.into_resolver()
}

/// `lasso::Rodeo::len`: the number of interned strings.
#[verifier::external_body]
fn rodeo_len(rodeo: &Rodeo) -> (len: usize)
    ensures
        len == rodeo_strings(*rodeo).len(),
{
    rodeo.len()
}

/// `lasso::RodeoResolver::len`: the number of strings it holds.
#[verifier::external_body]
fn resolver_len(resolver: &RodeoResolver) -> (len: usize)
    ensures
        len == resolver_strings(*resolver).len(),
{
    resolver.len()
}

/// `lasso::RodeoResolver::resolve` for the key at position `key`.
#[verifier::external_body]
fn resolver_resolve(resolver: &RodeoResolver, key: usize) -> (text: &str)
    requires
        key < resolver_strings(*resolver).len(),
        key < max_interned(),
    ensures
        text@ == resolver_strings(*resolver)[key as int],
{
    resolver.resolve(&Spur::try_from_usize(key).unwrap())
}

/// A reference to an interned string, with its byte length and its style.
#[derive(Clone, Copy, Debug, PartialEq, Eq, Hash)]
pub struct Text<S> {
    /// The key of the interned string.
    pub text: usize,
    /// The byte length of the string.
    pub len: usize,
    pub style: S,
}

impl<S: Style> Text<S> {
    pub fn new(text: usize, len: usize, style: S) -> (t: Text<S>)
        ensures
            t == (Text { text, len, style }),
    {
        Text { text, len, style }
    }

    pub fn len(self) -> (len: usize)
        ensures
            len == self.len,
    {
        self.len
    }

    /// Whether the text fits into `space` bytes.
    pub fn fits(self, space: usize) -> (fits: bool)
        ensures
            fits == (space >= self.len),
    {
        space >= self.len
    }

    pub fn style(self) -> (style: S)
        ensures
            style == self.style,
    {
        self.style
    }

    /// The string this text refers to.
    pub fn resolve<'r>(self, resolver: &'r ResolveTexts) -> (text: &'r str)
        requires
            self.text < resolver.strings().len(),
            self.text < max_interned(),
        ensures
            text@ == resolver.strings()[self.text as int],
    {
        resolver.resolve(self.text)
    }
}

/// The interner that owns every string of a document.
pub struct Texts {
    rodeo: Rodeo,
}

impl View for Texts {
    type V = Seq<Seq<char>>;

    closed spec fn view(&self) -> Seq<Seq<char>> {
        rodeo_strings(self.rodeo)
    }
}

/// An interner that holds no string.
impl Default for Texts {
    fn default() -> (texts: Texts)
        ensures
            texts@ == Seq::<Seq<char>>::empty(),
    {
        Texts::new()
    }
}

impl Texts {
    pub fn new() -> (texts: Texts)
        ensures
            texts@ == Seq::<Seq<char>>::empty(),
    {
        Texts { rodeo: rodeo_new() }
    }

    /// The key of `text`, interning it first if it is new.
    pub fn intern(&mut self, text: &str) -> (key: usize)
        requires
            old(self)@.len() < max_interned(),
        ensures
            final(self)@ == (if old(self)@.contains(text@) {
                old(self)@
            } else {
                old(self)@.push(text@)
            }),
            key < final(self)@.len(),
            key < max_interned(),
            final(self)@[key as int] == text@,
    {
        rodeo_get_or_intern(&mut self.rodeo, text)
    }

    /// Interns `text` and returns a reference to it with its byte length and
    /// the given style.
    pub fn styled<S: Style>(&mut self, text: &str, style: S) -> (t: Text<S>)
        requires
            old(self)@.len() < max_interned(),
        ensures
            final(self)@ == (if old(self)@.contains(text@) {
                old(self)@
            } else {
                old(self)@.push(text@)
            }),
            t.text < final(self)@.len(),
            t.text < max_interned(),
            final(self)@[t.text as int] == text@,
            t.len == chars_width(text@),
            t.style == style,
    {
        proof {
            lemma_encode_utf8_len(text@);
        }
        let key = self.intern(text);
        Text::new(key, text.as_bytes().len(), style)
    }

    /// Freezes the interner.
    pub fn read(self) -> (texts: ReadTexts)
        ensures
            texts@ == self@,
    {
        ReadTexts { rodeo: rodeo_into_resolver(self.rodeo) }
    }

    pub fn resolver(&self) -> (resolve: ResolveTexts<'_>)
        ensures
            resolve.strings() == self@,
    {
        ResolveTexts::Mutable(self)
    }

    /// The number of interned strings.
    pub fn len(&self) -> (len: usize)
        ensures
            len == self@.len(),
    {
        rodeo_len(&self.rodeo)
    }

    fn resolve(&self, key: usize) -> (text: &str)
        requires
            key < self@.len(),
            key < max_interned(),
        ensures
            text@ == self@[key as int],
    {
        rodeo_resolve(&self.rodeo, key)
    }
}

/// No string is interned twice.
pub open spec fn strings_distinct(strings: Seq<Seq<char>>) -> bool {
    forall|i: int, j: int| 0 <= i < j < strings.len() ==> strings[i] != strings[j]
}

/// Interning keeps the interned strings distinct, so a string's key is its
/// only position, and interning the same string again gives the same key and
/// changes nothing.
pub proof fn lemma_intern_keys(before: Seq<Seq<char>>, text: Seq<char>, key: int, again: int)
    requires
        strings_distinct(before),
        0 <= key < (if before.contains(text) { before } else { before.push(text) }).len(),
        (if before.contains(text) { before } else { before.push(text) })[key] == text,
    ensures
        ({
            let after = if before.contains(text) { before } else { before.push(text) };
            &&& strings_distinct(after)
            &&& after.contains(text)
            &&& forall|j: int| 0 <= j < after.len() && after[j] == text ==> j == key
            &&& (0 <= again < after.len() && after[again] == text) ==> again == key
        }),
{
    let after = if before.contains(text) { before } else { before.push(text) };
    if !before.contains(text) {
        assert forall|i: int, j: int| 0 <= i < j < after.len() implies after[i] != after[j] by {
            if j == before.len() {
                assert(after[i] == before[i]);
            }
        }
    }
    assert(after[key] == text);
}

/// A frozen interner.
pub struct ReadTexts {
    rodeo: RodeoResolver,
}

impl View for ReadTexts {
    type V = Seq<Seq<char>>;

    closed spec fn view(&self) -> Seq<Seq<char>> {
        resolver_strings(self.rodeo)
    }
}

impl ReadTexts {
    /// The number of strings held.
    pub fn len(&self) -> (len: usize)
        ensures
            len == self@.len(),
    {
        resolver_len(&self.rodeo)
    }

    fn resolve(&self, key: usize) -> (text: &str)
        requires
            key < self@.len(),
            key < max_interned(),
        ensures
            text@ == self@[key as int],
    {
        resolver_resolve(&self.rodeo, key)
    }
}

/// Either kind of interner, for reading strings back.
pub enum ResolveTexts<'texts> {
    Mutable(&'texts Texts),
    Readonly(&'texts ReadTexts),
}

impl<'texts> ResolveTexts<'texts> {
    /// The strings that can be resolved, in the order of their keys.
    pub open spec fn strings(&self) -> Seq<Seq<char>> {
        match self {
            ResolveTexts::Mutable(texts) => texts@,
            ResolveTexts::Readonly(texts) => texts@,
        }
    }

    /// Whether `key` can be resolved: it is below the number of strings held
    /// and within the key space.
    pub fn can_resolve(&self, key: usize) -> (ok: bool)
        ensures
            ok == (key < self.strings().len() && key < max_interned()),
    {
        let len = match self {
            ResolveTexts::Mutable(texts) => texts.len(),
            ResolveTexts::Readonly(texts) => texts.len(),
        };
        key < len && (key as u64) < 0xFFFF_FFFFu64
    }

    pub fn resolve(&self, key: usize) -> (text: &'texts str)
        requires
            key < self.strings().len(),
            key < max_interned(),
        ensures
            text@ == self.strings()[key as int],
    {
        match self {
            ResolveTexts::Mutable(texts) => texts.resolve(key),
            ResolveTexts::Readonly(texts) => texts.resolve(key),
        }
    }

    pub fn clone(&self) -> (copy: ResolveTexts<'texts>)
        ensures
            copy.strings() == self.strings(),
    {
        match self {
            ResolveTexts::Mutable(t) => ResolveTexts::Mutable(*t),
            ResolveTexts::Readonly(r) => ResolveTexts::Readonly(*r),
        }
    }
}

/// Reading strings back from an interner that can still grow.
impl<'texts> From<&'texts Texts> for ResolveTexts<'texts> {
    fn from(texts: &'texts Texts) -> (resolve: ResolveTexts<'texts>) {
        ResolveTexts::Mutable(texts)
    }
}

impl<'texts> vstd::std_specs::convert::FromSpecImpl<&'texts Texts> for ResolveTexts<'texts> {
    open spec fn obeys_from_spec() -> bool {
        true
    }

    open spec fn from_spec(texts: &'texts Texts) -> ResolveTexts<'texts> {
        ResolveTexts::Mutable(texts)
    }
}

/// Reading strings back from a frozen interner.
impl<'texts> From<&'texts ReadTexts> for ResolveTexts<'texts> {
    fn from(texts: &'texts ReadTexts) -> (resolve: ResolveTexts<'texts>) {
        ResolveTexts::Readonly(texts)
    }
}

impl<'texts> vstd::std_specs::convert::FromSpecImpl<&'texts ReadTexts> for ResolveTexts<'texts> {
    open spec fn obeys_from_spec() -> bool {
        true
    }

    open spec fn from_spec(texts: &'texts ReadTexts) -> ResolveTexts<'texts> {
        ResolveTexts::Readonly(texts)
    }
}

} // verus!
