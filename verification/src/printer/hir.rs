//! The high-level instructions of a layout: text, indentation changes and
//! opportunities to break the line.

use vstd::prelude::*;
use vstd::string::StrSliceExecFns;
use vstd::string::StringExecFns;

use crate::printer::text::Text;
use crate::style::Style;
use crate::utils::MapKey;

verus! {

/// The BLAKE3 digest of some bytes, in lowercase hexadecimal.
pub uninterp spec fn blake3_hex(bytes: Seq<u8>) -> Seq<char>;

/// `blake3::hash` followed by `Hash::to_hex`: the digest of `bytes` as 64
/// lowercase hexadecimal digits.
#[verifier::external_body]
fn blake3_hash_hex(bytes: &[u8]) -> (hex: String)
    ensures
        hex@ == blake3_hex(bytes@),
        hex@.len() == 64,
{
    blake3::hash(bytes).to_hex().to_string()
}

/// The bytes of the UUID whose value is `v`: its big-endian encoding.
pub open spec fn uuid_bytes_of(v: u128) -> Seq<u8> {
    Seq::new(16, |i: int| ((v >> (8 * (15 - i)) as u128) & 0xff) as u8)
}

/// `uuid::Uuid::from_u128` followed by `Uuid::as_bytes`: the big-endian bytes
/// of `v`.
#[verifier::external_body]
fn uuid_bytes(v: u128) -> (bytes: Vec<u8>)
    ensures
        bytes@ == uuid_bytes_of(v),
{
    uuid::Uuid::from_u128(v).as_bytes().to_vec()
}

/// Whether `v` is the value of a version 4 (random) UUID of the RFC 4122
/// variant: its version field (bits 76 to 79) is 4 and the top two bits of
/// its variant field (bits 62 and 63) are `10`.
pub open spec fn is_v4_uuid(v: u128) -> bool {
    v & 0xF000_C000_0000_0000_0000u128 == 0x4000_8000_0000_0000_0000u128
}

/// `uuid::Uuid::new_v4` followed by `Uuid::as_u128`: random bits with the
/// version and variant fields of a version 4 UUID set. Which random bits come
/// back is not stated.
#[verifier::external_body]
fn uuid_new_v4() -> (id: u128)
    ensures
        is_v4_uuid(id),
{
    uuid::Uuid::new_v4().as_u128()
}

/// The identity of a group of break opportunities. All the opportunities of a
/// group at the same level are either all taken or all skipped.
#[derive(Clone, Copy, Debug, PartialEq, Eq, Hash)]
pub enum BreakId {
    /// An identifier given by name.
    Named(&'static str),
    /// An identifier drawn at random (or the nil identifier, 0).
    Id(u128),
}

/// `PartialEq::eq` for `str`: two strings are equal exactly when they hold
/// the same characters, and a string is the characters it holds.
#[verifier::external_body]
fn str_eq(a: &str, b: &str) -> (eq: bool)
    ensures
        eq == (a@ == b@),
        eq == (a == b),
{
    a == b
}

impl MapKey for BreakId {
    fn same(&self, other: &Self) -> (same: bool) {
        match (self, other) {
            (BreakId::Id(a), BreakId::Id(b)) => *a == *b,
            (BreakId::Named(a), BreakId::Named(b)) => str_eq(a, b),
            _ => false,
        }
    }
}

/// The nil identifier.
impl Default for BreakId {
    fn default() -> (id: BreakId)
        ensures
            id == BreakId::Id(0),
    {
        BreakId::Id(0)
    }
}

impl BreakId {

    /// A fresh random identifier: a version 4 UUID, so never the nil
    /// identifier that `default` gives.
    pub fn generate() -> (id: BreakId)
        ensures
            id matches BreakId::Id(v) && is_v4_uuid(v),
            id != BreakId::Id(0),
    {
        let v = uuid_new_v4();
        assert(is_v4_uuid(v) ==> v != 0) by (bit_vector);
        BreakId::Id(v)
    }

    /// A short label for the identifier: a named identifier's name, or the
    /// first seven hexadecimal digits of the BLAKE3 digest of a random
    /// identifier's bytes.
    pub fn label(self) -> (label: String)
        ensures
            label@ == (match self {
                BreakId::Named(name) => name@,
                BreakId::Id(v) => blake3_hex(uuid_bytes_of(v)).subrange(0, 7),
            }),
    {
        match self {
            BreakId::Named(name) => String::from_str(name),
            BreakId::Id(v) => {
                let bytes = uuid_bytes(v);
                let hex = blake3_hash_hex(bytes.as_slice());
                let short = hex.as_str().substring_char(0, 7);
                String::from_str(short)
            },
        }
    }
}

/// A break level tied to a group of break opportunities.
#[derive(Clone, Copy, Debug, PartialEq, Eq, Hash)]
pub struct NamedBreakLevel {
    pub level: usize,
    pub id: BreakId,
}

/// Whether skipping the break level `this` implies skipping `other`.
pub open spec fn spec_implies_skip(this: NamedBreakLevel, other: BreakLevel) -> bool {
    match other {
        BreakLevel::Unconditional => false,
        BreakLevel::Level(o) => this.id == o.id && this.level <= o.level,
    }
}

impl NamedBreakLevel {
    pub fn into_level(self) -> (level: BreakLevel)
        ensures
            level == BreakLevel::Level(self),
    {
        BreakLevel::Level(self)
    }

    /// Does this level cover `other`? Taking breaks is monotonic: once break
    /// level N of a group is taken, so are its levels below N. So skipping
    /// level N of a group implies skipping its levels N, N + 1, ...; an
    /// unconditional break can never be skipped.
    pub fn implies_skip(self, other: BreakLevel) -> (implied: bool)
        ensures
            implied == spec_implies_skip(self, other),
    {
        match other {
            BreakLevel::Unconditional => false,
            BreakLevel::Level(NamedBreakLevel { level, id }) => {
                if !self.id.same(&id) {
                    false
                } else {
                    self.level <= level
                }
            },
        }
    }
}

/// Skipping a break level implies skipping that same level.
pub proof fn lemma_implies_skip_reflexive(level: NamedBreakLevel)
    ensures
        spec_implies_skip(level, BreakLevel::Level(level)),
{
}

/// Implied skipping chains: if skipping `a` implies skipping `b`, and
/// skipping `b` implies skipping `c`, then skipping `a` implies skipping `c`.
pub proof fn lemma_implies_skip_transitive(a: NamedBreakLevel, b: NamedBreakLevel, c: NamedBreakLevel)
    requires
        spec_implies_skip(a, BreakLevel::Level(b)),
        spec_implies_skip(b, BreakLevel::Level(c)),
    ensures
        spec_implies_skip(a, BreakLevel::Level(c)),
{
}

/// Skipping level N of a group implies skipping its higher levels, and never
/// a lower level, a level of another group, or an unconditional break.
pub proof fn lemma_implies_skip_levels(a: NamedBreakLevel, higher: usize, other: NamedBreakLevel)
    requires
        a.level <= higher,
    ensures
        spec_implies_skip(a, BreakLevel::Level(NamedBreakLevel { level: higher, id: a.id })),
        other.level < a.level ==> !spec_implies_skip(a, BreakLevel::Level(other)),
        other.id != a.id ==> !spec_implies_skip(a, BreakLevel::Level(other)),
        !spec_implies_skip(a, BreakLevel::Unconditional),
{
}

/// How a break opportunity decides whether it is taken.
#[derive(Clone, Copy, Debug, PartialEq, Eq, Hash)]
pub enum BreakLevel {
    /// Always taken.
    Unconditional,
    /// For a given `BreakId`, all breaks at a given level are either taken or
    /// not taken.
    Level(NamedBreakLevel),
}

/// A place where the line may (or must) break.
#[derive(Clone, Copy, Debug, PartialEq, Eq, Hash)]
pub struct BreakOpportunity {
    pub level: BreakLevel,
}

/// The unit value stands for an unconditional break.
impl From<()> for BreakLevel {
    fn from(level: ()) -> (l: BreakLevel) {
        BreakLevel::Unconditional
    }
}

impl vstd::std_specs::convert::FromSpecImpl<()> for BreakLevel {
    open spec fn obeys_from_spec() -> bool {
        true
    }

    open spec fn from_spec(level: ()) -> BreakLevel {
        BreakLevel::Unconditional
    }
}

/// A break opportunity at a break level.
impl From<BreakLevel> for BreakOpportunity {
    fn from(level: BreakLevel) -> (br: BreakOpportunity) {
        BreakOpportunity { level }
    }
}

impl vstd::std_specs::convert::FromSpecImpl<BreakLevel> for BreakOpportunity {
    open spec fn obeys_from_spec() -> bool {
        true
    }

    open spec fn from_spec(level: BreakLevel) -> BreakOpportunity {
        BreakOpportunity { level }
    }
}

impl BreakOpportunity {
    pub fn unconditional() -> (br: BreakOpportunity)
        ensures
            br.level == BreakLevel::Unconditional,
    {
        BreakOpportunity { level: BreakLevel::Unconditional }
    }

    pub fn conditional(id: BreakId, level: usize) -> (br: BreakOpportunity)
        ensures
            br.level == BreakLevel::Level(NamedBreakLevel { level, id }),
    {
        BreakOpportunity { level: BreakLevel::Level(NamedBreakLevel { level, id }) }
    }

    pub fn name(self) -> (name: &'static str)
        ensures
            name@ == (match self.level {
                BreakLevel::Unconditional => "br"@,
                BreakLevel::Level(_) => "wbr"@,
            }),
    {
        match self.level {
            BreakLevel::Unconditional => "br",
            BreakLevel::Level(_) => "wbr",
        }
    }
}

/// A change of the indentation level.
#[derive(Clone, Copy, Debug, PartialEq, Eq, Hash, Structural)]
pub enum IndentationHIR {
    Indent,
    Outdent,
}

/// The indentation level after applying `op` to `current`.
pub open spec fn spec_apply(op: IndentationHIR, current: int) -> int {
    match op {
        IndentationHIR::Indent => current + 1,
        IndentationHIR::Outdent => current - 1,
    }
}

/// Indenting and then outdenting gives back the indentation level, and so
/// does outdenting and then indenting.
pub proof fn lemma_apply_inverse(current: int)
    ensures
        spec_apply(IndentationHIR::Outdent, spec_apply(IndentationHIR::Indent, current)) == current,
        spec_apply(IndentationHIR::Indent, spec_apply(IndentationHIR::Outdent, current)) == current,
{
}

impl IndentationHIR {
    pub fn name(self) -> (name: &'static str)
        ensures
            name@ == (match self {
                IndentationHIR::Indent => "Indent"@,
                IndentationHIR::Outdent => "Outdent"@,
            }),
    {
        match self {
            IndentationHIR::Indent => "Indent",
            IndentationHIR::Outdent => "Outdent",
        }
    }

    /// The indentation level after this change. Outdenting below zero (and
    /// indenting past the largest `usize`) is an error.
    pub fn apply(self, current: usize) -> (next: usize)
        requires
            0 <= spec_apply(self, current as int) <= usize::MAX,
        ensures
            next == spec_apply(self, current as int),
    {
        match self {
            IndentationHIR::Indent => current + 1,
            IndentationHIR::Outdent => current - 1,
        }
    }
}

/// Where a piece of text may appear on a line.
#[derive(Clone, Copy, Debug, PartialEq, Eq, Hash, Structural)]
pub enum TextPlacement {
    /// Content is ignored at the edge.
    Interior,
    /// Content is only allowed at the edge.
    Exterior,
    /// Content is unconditionally included.
    Anywhere,
}

/// Where an instruction ends up once its line is known.
#[derive(Clone, Copy, Debug, PartialEq, Eq, Hash, Structural)]
pub enum Placement {
    Interior,
    Exterior,
    Anywhere,
    Indentation,
}

impl TextPlacement {
    pub fn into_placement(self) -> (placement: Placement)
        ensures
            placement == (match self {
                TextPlacement::Interior => Placement::Interior,
                TextPlacement::Exterior => Placement::Exterior,
                TextPlacement::Anywhere => Placement::Anywhere,
            }),
    {
        match self {
            TextPlacement::Interior => Placement::Interior,
            TextPlacement::Exterior => Placement::Exterior,
            TextPlacement::Anywhere => Placement::Anywhere,
        }
    }
}

/// A piece of text with its placement.
#[derive(Clone, Copy, Debug, PartialEq, Eq, Hash)]
pub struct TextHIR<S> {
    pub placement: TextPlacement,
    pub text: Text<S>,
}

/// One high-level layout instruction.
#[derive(Clone, Copy, Debug, PartialEq, Eq, Hash)]
pub enum HIR<S> {
    Bounded(TextHIR<S>),
    Indentation(IndentationHIR),
    /// An opportunity for a break at a given level.
    BreakOpportunity(BreakOpportunity),
    EOF,
}

impl<S: Style> HIR<S> {
    pub fn name(self) -> (name: &'static str)
        ensures
            name@ == (match self {
                HIR::Bounded(_) => "Bounded"@,
                HIR::Indentation(IndentationHIR::Indent) => "Indent"@,
                HIR::Indentation(IndentationHIR::Outdent) => "Outdent"@,
                HIR::BreakOpportunity(br) => match br.level {
                    BreakLevel::Unconditional => "br"@,
                    BreakLevel::Level(_) => "wbr"@,
                },
                HIR::EOF => "EOF"@,
            }),
    {
        match self {
            HIR::Bounded(_) => "Bounded",
            HIR::Indentation(indent) => indent.name(),
            HIR::BreakOpportunity(wbr) => wbr.name(),
            HIR::EOF => "EOF",
        }
    }

    pub fn bounded(text: Text<S>, placement: TextPlacement) -> (hir: HIR<S>)
        ensures
            hir == HIR::Bounded(TextHIR { placement, text }),
    {
        HIR::Bounded(TextHIR { placement, text })
    }

    pub fn wbr(id: BreakId, level: usize) -> (hir: HIR<S>)
        ensures
            hir == HIR::<S>::BreakOpportunity(
                BreakOpportunity { level: BreakLevel::Level(NamedBreakLevel { level, id }) },
            ),
    {
        HIR::BreakOpportunity(BreakOpportunity::conditional(id, level))
    }

    pub fn br() -> (hir: HIR<S>)
        ensures
            hir == HIR::<S>::BreakOpportunity(BreakOpportunity { level: BreakLevel::Unconditional }),
    {
        HIR::BreakOpportunity(BreakOpportunity::unconditional())
    }
}

/// A complete sequence of instructions.
#[derive(Clone, Debug, PartialEq, Eq, Hash)]
pub struct Atomic<S> {
    pub children: Vec<HIR<S>>,
}

impl<S: Style> Atomic<S> {
    pub fn new(children: Vec<HIR<S>>) -> (atomic: Atomic<S>)
        ensures
            atomic.children@ == children@,
    {
        Atomic { children }
    }

    pub fn len(&self) -> (len: usize)
        ensures
            len == self.children@.len(),
    {
        self.children.len()
    }

    pub fn index(&self, index: usize) -> (hir: HIR<S>)
        requires
            index < self.children@.len(),
        ensures
            hir == self.children@[index as int],
    {
        self.children[index]
    }
}

/// The break opportunities of previous lines.
#[derive(Clone, Debug, PartialEq, Eq, Hash)]
pub struct BreakOpportunities {}

/// A break opportunity in a previous line.
#[derive(Clone, Copy, Debug, PartialEq, Eq, Hash)]
pub struct BreakOpportunityPoint {
    pub line_number: usize,
    pub opportunity: BreakOpportunity,
}

/// The instruction of a break opportunity.
impl<S> From<BreakOpportunity> for HIR<S> {
    fn from(br: BreakOpportunity) -> (hir: HIR<S>) {
        HIR::BreakOpportunity(br)
    }
}

impl<S> vstd::std_specs::convert::FromSpecImpl<BreakOpportunity> for HIR<S> {
    open spec fn obeys_from_spec() -> bool {
        true
    }

    open spec fn from_spec(br: BreakOpportunity) -> HIR<S> {
        HIR::BreakOpportunity(br)
    }
}

} // verus!
