//! Ranges whose bounds may be open, resolved against a length.

use std::ops::{Bound, RangeFrom, RangeFull, RangeInclusive, RangeTo, RangeToInclusive};
use vstd::prelude::*;

verus! {

#[verifier::external_type_specification]
#[verifier::reject_recursive_types(Idx)]
pub struct ExRangeFrom<Idx>(RangeFrom<Idx>);

#[verifier::external_type_specification]
#[verifier::reject_recursive_types(Idx)]
pub struct ExRangeTo<Idx>(RangeTo<Idx>);

#[verifier::external_type_specification]
#[verifier::reject_recursive_types(Idx)]
pub struct ExRangeToInclusive<Idx>(RangeToInclusive<Idx>);

#[verifier::external_type_specification]
pub struct ExRangeFull(RangeFull);

#[verifier::external_type_specification]
#[verifier::reject_recursive_types(T)]
pub struct ExBound<T>(Bound<T>);

/// A range with both bounds resolved: `start` is inclusive, `end` exclusive.
#[derive(Clone, Copy, Debug, PartialEq, Eq, Hash, Structural)]
pub struct ResolvedRange<T: Copy> {
    pub start: T,
    pub end: T,
}

impl ResolvedRange<usize> {
    /// The same range as a `std::ops::Range`.
    pub fn into_range(self) -> (range: std::ops::Range<usize>)
        ensures
            range.start == self.start,
            range.end == self.end,
    {
        std::ops::Range { start: self.start, end: self.end }
    }
}

/// One bound of a range.
#[derive(Clone, Copy, Debug, PartialEq, Eq, Hash, Structural)]
pub enum RangeBound<T: Copy> {
    Included(T),
    Excluded(T),
    Unbounded,
}

/// The bound resolved as a start bound, which is inclusive.
pub open spec fn spec_resolve_start(bound: RangeBound<usize>, default: usize) -> int {
    match bound {
        RangeBound::Included(b) => b as int,
        RangeBound::Excluded(b) => b + 1,
        RangeBound::Unbounded => default as int,
    }
}

/// The bound resolved as an end bound, which is exclusive.
pub open spec fn spec_resolve_end(bound: RangeBound<usize>, default: usize) -> int {
    match bound {
        RangeBound::Included(b) => b + 1,
        RangeBound::Excluded(b) => b as int,
        RangeBound::Unbounded => default as int,
    }
}

impl RangeBound<usize> {
    /// Resolves the bound as a start bound: an included bound stays, an
    /// excluded bound moves up by one, and no bound gives `default`.
    pub fn resolve_start(self, default: usize) -> (start: usize)
        requires
            spec_resolve_start(self, default) <= usize::MAX,
        ensures
            start == spec_resolve_start(self, default),
    {
        match self {
            RangeBound::Included(bound) => bound,
            RangeBound::Excluded(bound) => bound + 1,
            RangeBound::Unbounded => default,
        }
    }

    /// Resolves the bound as an end bound: an excluded bound stays, an
    /// included bound moves up by one, and no bound gives `default`.
    pub fn resolve_end(self, default: usize) -> (end: usize)
        requires
            spec_resolve_end(self, default) <= usize::MAX,
        ensures
            end == spec_resolve_end(self, default),
    {
        match self {
            RangeBound::Included(bound) => bound + 1,
            RangeBound::Excluded(bound) => bound,
            RangeBound::Unbounded => default,
        }
    }
}

/// A range whose bounds may be open.
#[derive(Clone, Copy, Debug, PartialEq, Eq, Hash, Structural)]
pub struct WystRange<T: Copy> {
    pub start: RangeBound<T>,
    pub end: RangeBound<T>,
}

/// `num::traits::Zero::zero` for `usize`, which is 0.
#[verifier::external_body]
fn usize_zero() -> (zero: usize)
    ensures
        zero == 0,
{
    num::traits::Zero::zero()
}

impl WystRange<usize> {
    /// Resolves the range within a sequence of length `len`: an open start is
    /// 0, an open end is `len`.
    pub fn resolve(self, len: usize) -> (range: ResolvedRange<usize>)
        requires
            spec_resolve_start(self.start, 0) <= usize::MAX,
            spec_resolve_end(self.end, len) <= usize::MAX,
        ensures
            range.start == spec_resolve_start(self.start, 0),
            range.end == spec_resolve_end(self.end, len),
    {
        let start = self.start.resolve_start(usize_zero());
        let end = self.end.resolve_end(len);
        ResolvedRange { start, end }
    }
}

impl From<std::ops::Range<usize>> for WystRange<usize> {
    fn from(range: std::ops::Range<usize>) -> (r: WystRange<usize>) {
        WystRange { start: RangeBound::Included(range.start), end: RangeBound::Excluded(range.end) }
    }
}

impl vstd::std_specs::convert::FromSpecImpl<std::ops::Range<usize>> for WystRange<usize> {
    open spec fn obeys_from_spec() -> bool {
        true
    }

    open spec fn from_spec(range: std::ops::Range<usize>) -> WystRange<usize> {
        WystRange { start: RangeBound::Included(range.start), end: RangeBound::Excluded(range.end) }
    }
}

impl From<Bound<usize>> for RangeBound<usize> {
    fn from(bound: Bound<usize>) -> (r: RangeBound<usize>) {
        match bound {
            Bound::Included(b) => RangeBound::Included(b),
            Bound::Excluded(b) => RangeBound::Excluded(b),
            Bound::Unbounded => RangeBound::Unbounded,
        }
    }
}

impl vstd::std_specs::convert::FromSpecImpl<Bound<usize>> for RangeBound<usize> {
    open spec fn obeys_from_spec() -> bool {
        true
    }

    open spec fn from_spec(bound: Bound<usize>) -> RangeBound<usize> {
        match bound {
            Bound::Included(b) => RangeBound::Included(b),
            Bound::Excluded(b) => RangeBound::Excluded(b),
            Bound::Unbounded => RangeBound::Unbounded,
        }
    }
}

impl<'a> From<Bound<&'a usize>> for RangeBound<usize> {
    fn from(bound: Bound<&'a usize>) -> (r: RangeBound<usize>) {
        match bound {
            Bound::Included(b) => RangeBound::Included(*b),
            Bound::Excluded(b) => RangeBound::Excluded(*b),
            Bound::Unbounded => RangeBound::Unbounded,
        }
    }
}

impl<'a> vstd::std_specs::convert::FromSpecImpl<Bound<&'a usize>> for RangeBound<usize> {
    open spec fn obeys_from_spec() -> bool {
        true
    }

    open spec fn from_spec(bound: Bound<&'a usize>) -> RangeBound<usize> {
        match bound {
            Bound::Included(b) => RangeBound::Included(*b),
            Bound::Excluded(b) => RangeBound::Excluded(*b),
            Bound::Unbounded => RangeBound::Unbounded,
        }
    }
}

impl From<RangeFrom<usize>> for WystRange<usize> {
    fn from(range: RangeFrom<usize>) -> (r: WystRange<usize>) {
        WystRange { start: RangeBound::Included(range.start), end: RangeBound::Unbounded }
    }
}

impl vstd::std_specs::convert::FromSpecImpl<RangeFrom<usize>> for WystRange<usize> {
    open spec fn obeys_from_spec() -> bool {
        true
    }

    open spec fn from_spec(range: RangeFrom<usize>) -> WystRange<usize> {
        WystRange { start: RangeBound::Included(range.start), end: RangeBound::Unbounded }
    }
}

impl From<RangeTo<usize>> for WystRange<usize> {
    fn from(range: RangeTo<usize>) -> (r: WystRange<usize>) {
        WystRange { start: RangeBound::Unbounded, end: RangeBound::Excluded(range.end) }
    }
}

impl vstd::std_specs::convert::FromSpecImpl<RangeTo<usize>> for WystRange<usize> {
    open spec fn obeys_from_spec() -> bool {
        true
    }

    open spec fn from_spec(range: RangeTo<usize>) -> WystRange<usize> {
        WystRange { start: RangeBound::Unbounded, end: RangeBound::Excluded(range.end) }
    }
}

impl From<RangeToInclusive<usize>> for WystRange<usize> {
    fn from(range: RangeToInclusive<usize>) -> (r: WystRange<usize>) {
        WystRange { start: RangeBound::Unbounded, end: RangeBound::Included(range.end) }
    }
}

impl vstd::std_specs::convert::FromSpecImpl<RangeToInclusive<usize>> for WystRange<usize> {
    open spec fn obeys_from_spec() -> bool {
        true
    }

    open spec fn from_spec(range: RangeToInclusive<usize>) -> WystRange<usize> {
        WystRange { start: RangeBound::Unbounded, end: RangeBound::Included(range.end) }
    }
}

impl From<RangeFull> for WystRange<usize> {
    fn from(range: RangeFull) -> (r: WystRange<usize>) {
        WystRange { start: RangeBound::Unbounded, end: RangeBound::Unbounded }
    }
}

impl vstd::std_specs::convert::FromSpecImpl<RangeFull> for WystRange<usize> {
    open spec fn obeys_from_spec() -> bool {
        true
    }

    open spec fn from_spec(range: RangeFull) -> WystRange<usize> {
        WystRange { start: RangeBound::Unbounded, end: RangeBound::Unbounded }
    }
}

/// `RangeInclusive::start`: the lower bound of the range, which is inclusive.
#[verifier::external_body]
fn range_inclusive_start(range: &RangeInclusive<usize>) -> (start: usize)
    ensures
        start == range@.start,
{
    *range.start()
}

/// `RangeBounds::end_bound` of a `RangeInclusive`, as a `RangeBound`: the end
/// value, included unless the range was iterated to exhaustion.
#[verifier::external_body]
fn range_inclusive_end_bound(range: &RangeInclusive<usize>) -> (end: RangeBound<usize>)
    ensures
        end == RangeBound::Included(range@.end) || end == RangeBound::Excluded(range@.end),
        !range@.exhausted ==> end == RangeBound::Included(range@.end),
{
    match std::ops::RangeBounds::end_bound(range) {
        Bound::Included(b) => RangeBound::Included(*b),
        Bound::Excluded(b) => RangeBound::Excluded(*b),
        Bound::Unbounded => RangeBound::Unbounded,
    }
}

/// The bounds of an inclusive range: its start, included, and its end,
/// included unless the range was iterated to exhaustion.
pub open spec fn inclusive_range_of(range: RangeInclusive<usize>) -> WystRange<usize> {
    WystRange {
        start: RangeBound::Included(range@.start),
        end: if range@.exhausted {
            RangeBound::Excluded(range@.end)
        } else {
            RangeBound::Included(range@.end)
        },
    }
}

/// The bounds of an inclusive range. Its end bound after the range was
/// iterated to exhaustion is left open by the documentation of
/// `RangeBounds`, so `from_spec` is stated only where the range is fresh.
impl From<RangeInclusive<usize>> for WystRange<usize> {
    fn from(range: RangeInclusive<usize>) -> (r: WystRange<usize>)
        ensures
            r.start == RangeBound::Included(range@.start),
            r.end == RangeBound::Included(range@.end) || r.end == RangeBound::Excluded(range@.end),
            !range@.exhausted ==> r == inclusive_range_of(range),
    {
        WystRange { start: RangeBound::Included(range_inclusive_start(&range)), end: range_inclusive_end_bound(&range) }
    }
}

impl vstd::std_specs::convert::FromSpecImpl<RangeInclusive<usize>> for WystRange<usize> {
    open spec fn obeys_from_spec() -> bool {
        false
    }

    open spec fn from_spec(range: RangeInclusive<usize>) -> WystRange<usize> {
        inclusive_range_of(range)
    }
}

} // verus!
