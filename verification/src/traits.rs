//! The kinds of values the toolkit stores: data that can be debugged, cloned,
//! hashed and compared, and copyable data.

use vstd::prelude::*;

verus! {

/// Data that can be debugged, cloned, hashed and compared for equality.
pub trait WystData: core::fmt::Debug + Clone + core::hash::Hash + Eq {

}

impl<T: core::fmt::Debug + Clone + core::hash::Hash + Eq> WystData for T {

}

/// Data that is also copyable.
pub trait WystCopy: WystData + Copy {

}

impl<T: WystData + Copy> WystCopy for T {

}

/// Data that can be debugged and compared for equality.
pub trait WystDataValue: core::fmt::Debug + Eq {

}

impl<T: core::fmt::Debug + Eq> WystDataValue for T {

}

} // verus!
